//! Port and channel identifiers of the inter-blockchain communication
//! protocol.

use vstd::prelude::*;
use vstd::string::*;
use vstd::utf8::{encode_utf8, is_ascii_chars, is_ascii_chars_encode_utf8};

use std::str::FromStr;

use crate::text::{
    decimal, decimal_value, law_decimal_has_digits_only, law_decimal_of_64_bits_is_short,
    law_decimal_of_one_digit, law_decimal_reads_back, law_decimal_writes_back,
};

verus! {

/// What `char::is_alphanumeric` of the standard library returns: whether
/// Unicode counts a character among the letters and numbers.
pub uninterp spec fn unicode_alphanumeric(c: char) -> bool;

/// A decimal digit.
pub open spec fn is_digit(c: char) -> bool {
    '0' <= c <= '9'
}

/// An ASCII character that an identifier may hold.
pub open spec fn ascii_identifier_char(c: char) -> bool {
    ||| is_digit(c)
    ||| 'a' <= c <= 'z'
    ||| 'A' <= c <= 'Z'
    ||| c == '.' || c == '_' || c == '+' || c == '-' || c == '#'
    ||| c == '[' || c == ']' || c == '<' || c == '>'
}

/// A character that an identifier may hold. Outside ASCII these are the
/// letters and numbers of Unicode.
pub open spec fn identifier_char(c: char) -> bool {
    ascii_identifier_char(c) || (c as u32 >= 128 && unicode_alphanumeric(c))
}

/// Every character is one that an identifier may hold.
pub open spec fn identifier_chars(s: Seq<char>) -> bool {
    forall|i: int| 0 <= i < s.len() ==> identifier_char(#[trigger] s[i])
}

/// The number of bytes lies between the bounds.
pub open spec fn identifier_length(s: Seq<char>, min: nat, max: nat) -> bool {
    min <= encode_utf8(s).len() <= max
}

/// The text of a `u64`: an optional plus sign and decimal digits, with a value
/// that fits.
pub open spec fn u64_text(s: Seq<char>) -> bool {
    if s.len() > 0 && s[0] == '+' {
        u64_digits(s.skip(1))
    } else {
        u64_digits(s)
    }
}

/// Decimal digits, at least one, with a value that fits in a `u64`.
pub open spec fn u64_digits(s: Seq<char>) -> bool {
    &&& s.len() > 0
    &&& forall|i: int| 0 <= i < s.len() ==> is_digit(#[trigger] s[i])
    &&& decimal_value(s) <= u64::MAX
}

/// The word `channel`, a dash and the text of a number that does not start
/// with a needless zero.
pub open spec fn channel_index(s: Seq<char>) -> bool {
    &&& s.len() > 8
    &&& s.take(8) == "channel-"@
    &&& u64_text(s.skip(8))
    &&& s[8] == '0' ==> s.len() == 9
}

/// What is said of an identifier with a character that is not allowed.
pub open spec fn character_message(s: Seq<char>) -> Seq<char> {
    "identifier `"@ + s
        + "` must only contain alphanumeric characters or `.`, `_`, `+`, `-`, `#`, - `[`, `]`, `<`, `>`"@
}

/// What is said of an identifier that is too short or too long.
pub open spec fn length_message(s: Seq<char>, min: nat, max: nat) -> Seq<char> {
    "identifier `"@ + s + "` has invalid length; must be between `"@ + decimal(min) + "` and `"@
        + decimal(max) + "` characters"@
}

/// What is said of a channel identifier that does not name a channel by its
/// number.
pub open spec fn prefix_message(s: Seq<char>) -> Seq<char> {
    "identifier prefix `"@ + s + "` is invalid"@
}

/// Why `s` is no port identifier, or `None` where it is one.
pub open spec fn port_id_error(s: Seq<char>) -> Option<Seq<char>> {
    if !identifier_chars(s) {
        Some(character_message(s))
    } else if !identifier_length(s, 2, 128) {
        Some(length_message(s, 2, 128))
    } else {
        None
    }
}

/// Why `s` is no channel identifier, or `None` where it is one.
pub open spec fn channel_id_error(s: Seq<char>) -> Option<Seq<char>> {
    if !identifier_chars(s) {
        Some(character_message(s))
    } else if !identifier_length(s, 8, 64) {
        Some(length_message(s, 8, 64))
    } else if !channel_index(s) {
        Some(prefix_message(s))
    } else {
        None
    }
}

/// Calls `ibc_core_host_types::identifiers::PortId::from_str`. It accepts the
/// texts of 2 to 128 bytes that hold letters, numbers and the nine special
/// characters only, and keeps the text as it is. On any other text the error
/// prints as `port_id_error` says, characters being looked at before length.
#[verifier::external_body]
fn ibc_port_id(id: &str) -> (res: Result<String, String>)
    ensures
        match res {
            Ok(kept) => {
                &&& kept@ == id@
                &&& identifier_length(id@, 2, 128)
                &&& forall|i: int|
                    0 <= i < id@.len() ==> ascii_identifier_char(#[trigger] id@[i]) || (id@[i]
                        as u32 >= 128 && unicode_alphanumeric(id@[i]))
            },
            Err(message) => port_id_error(id@) == Some(message@),
        },
{
    match ibc_core_host_types::identifiers::PortId::from_str(id) {
        Ok(port_id) => Ok(port_id.to_string()),
        Err(err) => Err(err.to_string()),
    }
}

/// Calls `ibc_core_host_types::identifiers::ChannelId::from_str`. It accepts
/// the texts of 8 to 64 bytes that consist of `channel-` and the text of a
/// `u64` without a needless zero in front, and keeps the text as it is. On any
/// other text the error prints as `channel_id_error` says, characters being
/// looked at first and length second.
#[verifier::external_body]
fn ibc_channel_id(id: &str) -> (res: Result<String, String>)
    ensures
        match res {
            Ok(kept) => channel_id_error(id@) is None && kept@ == id@,
            Err(message) => channel_id_error(id@) == Some(message@),
        },
{
    match ibc_core_host_types::identifiers::ChannelId::from_str(id) {
        Ok(channel_id) => Ok(channel_id.to_string()),
        Err(err) => Err(err.to_string()),
    }
}

/// The port of another chain. The text is kept as it came: what is deserialized is not
/// looked at again, so a value may hold a text that `parse` refuses.
#[derive(Debug, Clone, PartialEq, Eq, PartialOrd, Ord, Hash)]
pub struct PortId {
    /// The text of the identifier.
    pub id: String,
}

impl View for PortId {
    type V = Seq<char>;

    open spec fn view(&self) -> Seq<char> {
        self.id@
    }
}

impl PortId {
    /// The text is a port identifier.
    pub open spec fn valid(&self) -> bool {
        port_id_error(self@) is None
    }

    /// Reads a port identifier, or says why the text is none.
    pub fn parse(id: &str) -> (res: Result<PortId, String>)
        ensures
            match res {
                Ok(port_id) => port_id.valid() && port_id@ == id@,
                Err(message) => port_id_error(id@) == Some(message@),
            },
    {
        match ibc_port_id(id) {
            Ok(id) => Ok(PortId { id }),
            Err(message) => Err(message),
        }
    }

    /// The text of the identifier.
    pub fn to_string(&self) -> (res: String)
        ensures
            res@ == self@,
    {
        self.id.clone()
    }
}

/// A channel to another chain. The text is kept as it came: what is deserialized is not
/// looked at again, so a value may hold a text that `parse` refuses.
#[derive(Debug, Clone, PartialEq, Eq, PartialOrd, Ord, Hash)]
pub struct ChannelId {
    /// The text of the identifier.
    pub id: String,
}

impl View for ChannelId {
    type V = Seq<char>;

    open spec fn view(&self) -> Seq<char> {
        self.id@
    }
}

impl ChannelId {
    /// The text is a channel identifier.
    pub open spec fn valid(&self) -> bool {
        channel_id_error(self@) is None
    }

    /// Reads a channel identifier, or says why the text is none.
    pub fn parse(id: &str) -> (res: Result<ChannelId, String>)
        ensures
            match res {
                Ok(channel_id) => channel_id.valid() && channel_id@ == id@,
                Err(message) => channel_id_error(id@) == Some(message@),
            },
    {
        match ibc_channel_id(id) {
            Ok(id) => Ok(ChannelId { id }),
            Err(message) => Err(message),
        }
    }

    /// The text of the identifier.
    pub fn to_string(&self) -> (res: String)
        ensures
            res@ == self@,
    {
        self.id.clone()
    }
}

/// The characters of identifiers: the letters and digits of ASCII, nine others,
/// and, outside ASCII, what Unicode counts among the letters and numbers.
pub proof fn law_characters_of_identifiers(c: char)
    ensures
        identifier_char(c) <==> {
            ||| 48 <= c as int <= 57
            ||| 65 <= c as int <= 90
            ||| 97 <= c as int <= 122
            ||| seq!['.', '_', '+', '-', '#', '[', ']', '<', '>'].contains(c)
            ||| 128 <= c as int && unicode_alphanumeric(c)
        },
        is_digit(c) <==> 48 <= c as int <= 57,
        c as int <= 127 ==> ascii_identifier_char(c) == identifier_char(c),
        c as int >= 128 ==> !ascii_identifier_char(c),
{
    let others = seq!['.', '_', '+', '-', '#', '[', ']', '<', '>'];
    assert(others[0] == '.' && others[1] == '_' && others[2] == '+' && others[3] == '-');
    assert(others[4] == '#' && others[5] == '[' && others[6] == ']');
    assert(others[7] == '<' && others[8] == '>');
    if others.contains(c) {
        let i = choose|i: int| 0 <= i < 9 && others[i] == c;
        assert(ascii_identifier_char(others[i]));
    }
}

/// A text is a port identifier exactly where it has 2 to 128 bytes and no
/// character that identifiers may not hold.
pub proof fn law_port_identifiers(s: Seq<char>)
    ensures
        port_id_error(s) is None <==> {
            &&& forall|i: int| 0 <= i < s.len() ==> identifier_char(#[trigger] s[i])
            &&& 2 <= encode_utf8(s).len()
            &&& encode_utf8(s).len() <= 128
        },
{
}

/// A text is a channel identifier exactly where it has 8 to 64 bytes, no
/// character that identifiers may not hold, and reads `channel-`, perhaps a plus
/// sign, and then a number of 64 bits without a needless zero in front. Behind
/// the plus sign zeros may stand.
pub proof fn law_channel_identifiers(s: Seq<char>)
    ensures
        channel_id_error(s) is None <==> {
            &&& forall|i: int| 0 <= i < s.len() ==> identifier_char(#[trigger] s[i])
            &&& 8 <= encode_utf8(s).len()
            &&& encode_utf8(s).len() <= 64
            &&& s.len() > 8
            &&& s.take(8) == seq!['c', 'h', 'a', 'n', 'n', 'e', 'l', '-']
            &&& s[8] == '+' ==> {
                &&& s.len() > 9
                &&& forall|i: int| 9 <= i < s.len() ==> 48 <= #[trigger] s[i] as int <= 57
                &&& decimal_value(s.skip(9)) <= 0xffff_ffff_ffff_ffff
            }
            &&& s[8] != '+' ==> {
                &&& forall|i: int| 8 <= i < s.len() ==> 48 <= #[trigger] s[i] as int <= 57
                &&& decimal_value(s.skip(8)) <= 0xffff_ffff_ffff_ffff
            }
            &&& s[8] == '0' ==> s.len() == 9
        },
{
    reveal_strlit("channel-");
    assert("channel-"@ =~= seq!['c', 'h', 'a', 'n', 'n', 'e', 'l', '-']);
    if s.len() > 8 {
        let number = s.skip(8);
        let digits = s.skip(9);
        assert(number[0] == s[8]);
        assert(number.skip(1) =~= digits);
        assert(forall|i: int| 8 <= i < s.len() ==> #[trigger] s[i] == number[i - 8]);
        assert(forall|i: int| 9 <= i < s.len() ==> #[trigger] s[i] == digits[i - 9]);
        assert(forall|i: int| 0 <= i < number.len() ==> #[trigger] number[i] == s[i + 8]);
        assert(forall|i: int| 0 <= i < digits.len() ==> #[trigger] digits[i] == s[i + 9]);
    }
}

/// The word `channel`, a dash and the decimal writing of any number of 64 bits
/// are a channel identifier.
pub proof fn law_numbered_channels_are_accepted(n: u64)
    ensures
        channel_id_error("channel-"@ + decimal(n as nat)) is None,
{
    let number = decimal(n as nat);
    let s = "channel-"@ + number;
    reveal_strlit("channel-");
    law_decimal_reads_back(n as nat);
    law_decimal_has_digits_only(n as nat);
    law_decimal_of_64_bits_is_short(n);
    assert(s.take(8) =~= "channel-"@);
    assert(s.skip(8) =~= number);
    assert(s[8] == number[0]);
    assert forall|i: int| 0 <= i < s.len() implies ascii_identifier_char(#[trigger] s[i]) by {
        if i >= 8 {
            assert(s[i] == number[i - 8]);
        }
    }
    assert(is_ascii_chars(s));
    is_ascii_chars_encode_utf8(s);
    if s[8] == '0' {
        law_decimal_of_one_digit(0);
    }
}

/// Where no plus sign stands in front of the number, a channel identifier is the
/// word `channel`, a dash and the decimal writing of a number of 64 bits, so one
/// number has one such identifier.
pub proof fn law_accepted_channels_are_numbered(s: Seq<char>)
    requires
        channel_id_error(s) is None,
        s[8] != '+',
    ensures
        decimal_value(s.skip(8)) <= 0xffff_ffff_ffff_ffff,
        s == "channel-"@ + decimal(decimal_value(s.skip(8))),
{
    let number = s.skip(8);
    assert(number[0] == s[8]);
    law_decimal_writes_back(number);
    assert(s =~= s.take(8) + number);
}

/// A character that identifiers may not hold is told before anything else, for
/// ports and for channels alike.
pub proof fn law_bad_characters_are_told_first(s: Seq<char>)
    requires
        exists|i: int| 0 <= i < s.len() && !identifier_char(#[trigger] s[i]),
    ensures
        port_id_error(s) == Some(
            "identifier `"@ + s
                + "` must only contain alphanumeric characters or `.`, `_`, `+`, `-`, `#`, - `[`, `]`, `<`, `>`"@,
        ),
        channel_id_error(s) == port_id_error(s),
{
}

/// Where the characters are in order, a length out of bounds is told, with the
/// bounds for ports or for channels.
pub proof fn law_bad_lengths_are_told(s: Seq<char>)
    requires
        forall|i: int| 0 <= i < s.len() ==> identifier_char(#[trigger] s[i]),
    ensures
        encode_utf8(s).len() < 2 || encode_utf8(s).len() > 128 ==> port_id_error(s) == Some(
            "identifier `"@ + s + "` has invalid length; must be between `2` and `128` characters"@,
        ),
        encode_utf8(s).len() < 8 || encode_utf8(s).len() > 64 ==> channel_id_error(s) == Some(
            "identifier `"@ + s + "` has invalid length; must be between `8` and `64` characters"@,
        ),
{
    reveal_with_fuel(decimal, 3);
    reveal_strlit("` has invalid length; must be between `");
    reveal_strlit("` and `");
    reveal_strlit("` characters");
    reveal_strlit("` has invalid length; must be between `2` and `128` characters");
    reveal_strlit("` has invalid length; must be between `8` and `64` characters");
    assert(decimal(2) =~= seq!['2']);
    assert(decimal(8) =~= seq!['8']);
    assert(decimal(128) =~= seq!['1', '2', '8']);
    assert(decimal(64) =~= seq!['6', '4']);
    assert("` has invalid length; must be between `2` and `128` characters"@
        =~= "` has invalid length; must be between `"@ + seq!['2'] + "` and `"@ + seq![
        '1',
        '2',
        '8',
    ] + "` characters"@);
    assert("` has invalid length; must be between `8` and `64` characters"@
        =~= "` has invalid length; must be between `"@ + seq!['8'] + "` and `"@ + seq!['6', '4']
        + "` characters"@);
    assert(length_message(s, 2, 128) =~= "identifier `"@ + s + (
    "` has invalid length; must be between `"@ + decimal(2) + "` and `"@ + decimal(128)
        + "` characters"@));
    assert(length_message(s, 8, 64) =~= "identifier `"@ + s + (
    "` has invalid length; must be between `"@ + decimal(8) + "` and `"@ + decimal(64)
        + "` characters"@));
}

/// Where characters and length are in order, a channel identifier that is
/// refused is said to have a wrong prefix, and a port identifier is accepted.
pub proof fn law_bad_prefixes_are_told_last(s: Seq<char>)
    requires
        forall|i: int| 0 <= i < s.len() ==> identifier_char(#[trigger] s[i]),
        8 <= encode_utf8(s).len(),
        encode_utf8(s).len() <= 64,
    ensures
        port_id_error(s) is None,
        channel_id_error(s) is Some ==> channel_id_error(s) == Some(
            "identifier prefix `"@ + s + "` is invalid"@,
        ),
{
}

/// Identifiers stand for their texts, and are valid where those are accepted.
pub proof fn law_identifiers_are_their_texts(port_id: PortId, channel_id: ChannelId)
    ensures
        port_id@ == port_id.id@,
        port_id.valid() <==> port_id_error(port_id.id@) is None,
        channel_id@ == channel_id.id@,
        channel_id.valid() <==> channel_id_error(channel_id.id@) is None,
{
}

} // verus!
