//! The binary layout of integers and strings: little-endian bytes, and UTF-8
//! bytes behind their number.

use vstd::arithmetic::div_mod::lemma_div_denominator;
use vstd::arithmetic::power::{lemma_pow_positive, pow};
use vstd::prelude::*;
use vstd::utf8::*;

verus! {

/// What sort of error reading or writing comes to.
#[derive(Debug, Clone, Copy, PartialEq, Eq, Structural)]
pub enum IoErrorKind {
    /// The data cannot be read or written as what it should be.
    InvalidData,
    /// Anything else.
    Other,
}

/// An error of reading or writing.
#[derive(Debug, Clone, PartialEq, Eq)]
pub struct IoError {
    /// The sort of error.
    pub kind: IoErrorKind,
    /// What is said of it.
    pub message: String,
}

/// The `width` lowest bytes of `n`, the least significant first.
pub open spec fn le_bytes(n: nat, width: nat) -> Seq<u8>
    decreases width,
{
    if width == 0 {
        seq![]
    } else {
        seq![(n % 256) as u8] + le_bytes(n / 256, (width - 1) as nat)
    }
}

/// The number that `bytes` write, the least significant first.
pub open spec fn le_value(bytes: Seq<u8>) -> nat
    decreases bytes.len(),
{
    if bytes.len() == 0 {
        0
    } else {
        bytes[0] as nat + 256 * le_value(bytes.drop_first())
    }
}

/// How many numbers `width` bytes can write.
pub open spec fn le_range(width: nat) -> nat
    decreases width,
{
    if width == 0 {
        1
    } else {
        256 * le_range((width - 1) as nat)
    }
}

/// Four bytes write the values of a `u32`, sixteen those of a `u128`.
pub proof fn lemma_le_ranges()
    ensures
        le_range(4) == u32::MAX + 1,
        le_range(16) == u128::MAX + 1,
{
    reveal_with_fuel(le_range, 17);
}

/// `width` bytes come out, and reading them gives the number back.
pub proof fn lemma_le_value_of_bytes(n: nat, width: nat)
    ensures
        le_bytes(n, width).len() == width,
        n < le_range(width) ==> le_value(le_bytes(n, width)) == n,
    decreases width,
{
    if width > 0 {
        let rest = le_bytes(n / 256, (width - 1) as nat);
        lemma_le_value_of_bytes(n / 256, (width - 1) as nat);
        assert(le_bytes(n, width).drop_first() =~= rest);
    }
}

/// The number that bytes write fits in them, and writing it gives the bytes
/// back.
pub proof fn lemma_le_bytes_of_value(bytes: Seq<u8>)
    ensures
        le_value(bytes) < le_range(bytes.len()),
        le_bytes(le_value(bytes), bytes.len()) == bytes,
    decreases bytes.len(),
{
    if bytes.len() > 0 {
        let rest = bytes.drop_first();
        lemma_le_bytes_of_value(rest);
        assert(le_value(bytes) % 256 == bytes[0]);
        assert(le_value(bytes) / 256 == le_value(rest));
        assert(seq![bytes[0]] + rest =~= bytes);
    } else {
        assert(le_bytes(0, 0) =~= bytes);
    }
}

/// The bytes of a number are those of its lower part and then those of its
/// upper part.
pub proof fn lemma_le_bytes_split(low: nat, high: nat, low_width: nat, high_width: nat)
    requires
        low < le_range(low_width),
    ensures
        le_bytes(low + le_range(low_width) * high, low_width + high_width) == le_bytes(
            low,
            low_width,
        ) + le_bytes(high, high_width),
    decreases low_width,
{
    if low_width == 0 {
        assert(le_range(0) * high == high) by (nonlinear_arith)
            requires
                le_range(0) == 1,
        ;
        assert(le_bytes(low, 0) + le_bytes(high, high_width) =~= le_bytes(high, high_width));
    } else {
        let width = (low_width - 1) as nat;
        let n = low + le_range(low_width) * high;
        let upper = le_range(width) * high;
        assert(le_range(low_width) * high == 256 * upper) by (nonlinear_arith)
            requires
                le_range(low_width) == 256 * le_range(width),
                upper == le_range(width) * high,
        ;
        assert(n % 256 == low % 256);
        assert(n / 256 == low / 256 + upper);
        lemma_le_bytes_split(low / 256, high, width, high_width);
        assert(le_bytes(n, low_width + high_width) =~= le_bytes(low, low_width) + le_bytes(
            high,
            high_width,
        ));
    }
}

/// The bytes of a string: their number, in four bytes, and then the UTF-8
/// encoding.
pub open spec fn string_bytes(s: Seq<char>) -> Seq<u8> {
    le_bytes(encode_utf8(s).len(), 4) + encode_utf8(s)
}

/// The number of UTF-8 bytes can be written in four bytes.
pub open spec fn string_fits(s: Seq<char>) -> bool {
    encode_utf8(s).len() <= u32::MAX
}

/// The bytes hold as many bytes of text as they announce.
pub open spec fn string_is_whole(bytes: Seq<u8>) -> bool {
    bytes.len() >= 4 && bytes.len() >= 4 + le_value(bytes.take(4))
}

/// The bytes of text that are announced.
pub open spec fn string_body(bytes: Seq<u8>) -> Seq<u8> {
    bytes.subrange(4, (4 + le_value(bytes.take(4))) as int)
}

/// What stands behind the bytes of text that are announced.
pub open spec fn string_rest(bytes: Seq<u8>) -> Seq<u8> {
    bytes.skip((4 + le_value(bytes.take(4))) as int)
}

/// The string at the start of `bytes` and what follows it, where there is one.
pub open spec fn read_string_spec(bytes: Seq<u8>) -> Option<(Seq<char>, Seq<u8>)> {
    if string_is_whole(bytes) && valid_utf8(string_body(bytes)) {
        Some((decode_utf8(string_body(bytes)), string_rest(bytes)))
    } else {
        None
    }
}

/// What the standard library says of bytes that are not UTF-8: the text of the
/// error of `String::from_utf8`.
pub uninterp spec fn utf8_error_text(bytes: Seq<u8>) -> Seq<char>;

/// What is said of a text that is too long to be written: the text of the
/// error of `borsh::BorshSerialize::serialize`.
pub uninterp spec fn too_long_text(s: Seq<char>) -> Seq<char>;

/// Why reading failed.
pub struct ReadFailure {
    /// What is said of it.
    pub message: Seq<char>,
    /// What is left to read, where that is known.
    pub rest: Option<Seq<u8>>,
}

/// There are too few bytes. How many of them are used up is not known.
pub open spec fn short_failure() -> ReadFailure {
    ReadFailure { message: "Unexpected length of input"@, rest: None }
}

/// Why there is no string at the start of `bytes`, where there is none: there
/// are too few bytes, or they are not UTF-8. Once the number of bytes has been
/// read, all that are there are used up.
pub open spec fn string_failure(bytes: Seq<u8>) -> ReadFailure {
    if string_is_whole(bytes) {
        ReadFailure {
            message: utf8_error_text(string_body(bytes)),
            rest: Some(string_rest(bytes)),
        }
    } else if bytes.len() >= 4 {
        ReadFailure { message: short_failure().message, rest: Some(seq![]) }
    } else {
        short_failure()
    }
}

/// The bytes of a `u128`: sixteen of them.
pub open spec fn u128_bytes(n: u128) -> Seq<u8> {
    le_bytes(n as nat, 16)
}

/// The `u128` at the start of `bytes` and what follows it, where there are
/// enough bytes.
pub open spec fn read_u128_spec(bytes: Seq<u8>) -> Option<(u128, Seq<u8>)> {
    if bytes.len() < 16 {
        None
    } else {
        Some((le_value(bytes.take(16)) as u128, bytes.skip(16)))
    }
}

/// A string that was written is read back, whatever follows it.
pub proof fn law_string_reads_back(s: Seq<char>, rest: Seq<u8>)
    requires
        string_fits(s),
    ensures
        read_string_spec(string_bytes(s) + rest) == Some((s, rest)),
{
    let body = encode_utf8(s);
    let bytes = string_bytes(s) + rest;
    lemma_le_ranges();
    lemma_le_value_of_bytes(body.len(), 4);
    encode_utf8_valid_utf8(s);
    encode_utf8_decode_utf8(s);
    assert(bytes.take(4) =~= le_bytes(body.len(), 4));
    assert(bytes.subrange(4, (4 + body.len()) as int) =~= body);
    assert(bytes.skip((4 + body.len()) as int) =~= rest);
}

/// A string that was read is written with the very bytes that it was read
/// from.
pub proof fn law_string_writes_back(bytes: Seq<u8>)
    ensures
        match read_string_spec(bytes) {
            Some((s, rest)) => string_fits(s) && string_bytes(s) + rest == bytes,
            None => true,
        },
{
    if let Some((s, rest)) = read_string_spec(bytes) {
        let len = le_value(bytes.take(4));
        let body = bytes.subrange(4, (4 + len) as int);
        lemma_le_ranges();
        lemma_le_bytes_of_value(bytes.take(4));
        decode_utf8_encode_utf8(body);
        assert(string_bytes(s) + rest =~= bytes);
    }
}

/// A `u128` that was written is read back, whatever follows it.
pub proof fn law_u128_reads_back(n: u128, rest: Seq<u8>)
    ensures
        read_u128_spec(u128_bytes(n) + rest) == Some((n, rest)),
{
    let bytes = u128_bytes(n) + rest;
    lemma_le_ranges();
    lemma_le_value_of_bytes(n as nat, 16);
    assert(bytes.take(16) =~= u128_bytes(n));
    assert(bytes.skip(16) =~= rest);
}

/// A `u128` that was read is written with the very bytes that it was read
/// from.
pub proof fn law_u128_writes_back(bytes: Seq<u8>)
    ensures
        match read_u128_spec(bytes) {
            Some((n, rest)) => u128_bytes(n) + rest == bytes,
            None => true,
        },
{
    if let Some((n, rest)) = read_u128_spec(bytes) {
        lemma_le_ranges();
        lemma_le_bytes_of_value(bytes.take(16));
        assert(u128_bytes(n) + rest =~= bytes);
    }
}

/// A number is written with as many bytes as there is room for, and the byte at
/// place `i` counts how often `256^i` goes into what the places above leave.
pub proof fn law_bytes_are_digits(n: nat, width: nat)
    ensures
        le_bytes(n, width).len() == width,
        forall|i: int|
            0 <= i < width ==> #[trigger] le_bytes(n, width)[i] as int == (n as int / pow(
                256,
                i as nat,
            )) % 256,
    decreases width,
{
    lemma_le_value_of_bytes(n, width);
    if width > 0 {
        let rest = le_bytes(n / 256, (width - 1) as nat);
        law_bytes_are_digits(n / 256, (width - 1) as nat);
        assert forall|i: int| 0 <= i < width implies #[trigger] le_bytes(n, width)[i] as int == (
        n as int / pow(256, i as nat)) % 256 by {
            reveal(pow);
            if i > 0 {
                assert(le_bytes(n, width)[i] == rest[i - 1]);
                lemma_pow_positive(256, (i - 1) as nat);
                lemma_div_denominator(n as int, 256, pow(256, (i - 1) as nat));
            }
        }
    }
}

/// With `width` bytes, `256^width` numbers can be written.
pub proof fn law_bytes_have_room(width: nat)
    ensures
        le_range(width) == pow(256, width),
    decreases width,
{
    reveal(pow);
    if width > 0 {
        law_bytes_have_room((width - 1) as nat);
    }
}

/// No bytes are zero, and a byte in front of others counts once, and they count
/// 256 times.
pub proof fn law_value_of_more_bytes(first: u8, rest: Seq<u8>)
    ensures
        le_value(Seq::<u8>::empty()) == 0,
        le_value(seq![first] + rest) == first + 256 * le_value(rest),
{
    assert((seq![first] + rest).drop_first() =~= rest);
}

/// What four bytes write, the least significant first.
proof fn lemma_value_of_four_bytes(bytes: Seq<u8>)
    requires
        bytes.len() == 4,
    ensures
        le_value(bytes) == bytes[0] + 0x100 * bytes[1] + 0x1_0000 * bytes[2] + 0x100_0000
            * bytes[3],
{
    let one = bytes.drop_first();
    let two = one.drop_first();
    let three = two.drop_first();
    assert(le_value(three.drop_first()) == 0);
    assert(le_value(three) == bytes[3]);
    assert(le_value(two) == bytes[2] + 256 * le_value(three));
    assert(le_value(one) == bytes[1] + 256 * le_value(two));
}

/// A string is stored as the number of its UTF-8 bytes, in four bytes of which
/// the least significant stands first, and then those bytes themselves. The
/// number can be stored where it is below 2^32.
pub proof fn law_string_layout(s: Seq<char>)
    ensures
        string_fits(s) <==> encode_utf8(s).len() < 0x1_0000_0000,
        string_bytes(s).len() == 4 + encode_utf8(s).len(),
        string_bytes(s).skip(4) == encode_utf8(s),
        string_fits(s) ==> encode_utf8(s).len() == string_bytes(s)[0] + 0x100 * string_bytes(s)[1]
            + 0x1_0000 * string_bytes(s)[2] + 0x100_0000 * string_bytes(s)[3],
{
    let len = encode_utf8(s).len();
    lemma_le_ranges();
    lemma_le_value_of_bytes(len, 4);
    lemma_value_of_four_bytes(le_bytes(len, 4));
    assert(string_bytes(s).skip(4) =~= encode_utf8(s));
}

/// A `u128` is stored in sixteen bytes, of which the one at place `i` counts for
/// `256^i`.
pub proof fn law_u128_layout(n: u128)
    ensures
        u128_bytes(n).len() == 16,
        forall|i: int|
            0 <= i < 16 ==> #[trigger] u128_bytes(n)[i] as int == (n as int / pow(256, i as nat))
                % 256,
{
    law_bytes_are_digits(n as nat, 16);
}

/// Sixteen bytes are all that reading a `u128` needs, and all that it takes.
pub proof fn law_u128_takes_sixteen_bytes(bytes: Seq<u8>)
    ensures
        read_u128_spec(bytes) is Some <==> bytes.len() >= 16,
        bytes.len() >= 16 ==> read_u128_spec(bytes)->Some_0.1 == bytes.skip(16),
{
}

/// Where the four bytes in front announce no more than what follows, those
/// that are announced are the text, which is read if it is UTF-8, and the rest
/// is left.
pub proof fn law_string_is_what_is_announced(bytes: Seq<u8>)
    requires
        bytes.len() >= 4,
    ensures
        ({
            let end = 4 + (bytes[0] + 0x100 * bytes[1] + 0x1_0000 * bytes[2] + 0x100_0000
                * bytes[3]);
            &&& string_is_whole(bytes) <==> end <= bytes.len()
            &&& string_body(bytes) == bytes.subrange(4, end)
            &&& string_rest(bytes) == bytes.skip(end)
            &&& read_string_spec(bytes) is Some <==> end <= bytes.len() && valid_utf8(
                bytes.subrange(4, end),
            )
            &&& read_string_spec(bytes) is Some ==> read_string_spec(bytes)->Some_0 == (
                decode_utf8(bytes.subrange(4, end)),
                bytes.skip(end),
            )
        }),
{
    lemma_value_of_four_bytes(bytes.take(4));
}

/// Why a string is not read. Too few bytes are said to be too few, and nothing
/// is left of them where their number was there. Bytes that are not UTF-8 are
/// told in the words of the standard library, and what stands behind them is
/// left.
pub proof fn law_reasons_for_no_string(bytes: Seq<u8>)
    ensures
        short_failure().message == "Unexpected length of input"@,
        short_failure().rest is None,
        bytes.len() < 4 ==> {
            &&& !string_is_whole(bytes)
            &&& read_string_spec(bytes) is None
            &&& string_failure(bytes).message == "Unexpected length of input"@
            &&& string_failure(bytes).rest is None
        },
        bytes.len() >= 4 ==> {
            let end = 4 + (bytes[0] + 0x100 * bytes[1] + 0x1_0000 * bytes[2] + 0x100_0000
                * bytes[3]);
            &&& bytes.len() < end ==> {
                &&& string_failure(bytes).message == "Unexpected length of input"@
                &&& string_failure(bytes).rest == Some(Seq::<u8>::empty())
            }
            &&& end <= bytes.len() ==> {
                &&& string_failure(bytes).message == utf8_error_text(bytes.subrange(4, end))
                &&& string_failure(bytes).rest == Some(bytes.skip(end))
            }
        },
{
    if bytes.len() >= 4 {
        law_string_is_what_is_announced(bytes);
    }
}

/// Calls `borsh::BorshSerialize::serialize` on a string. It appends the bytes
/// of the string. Where their number does not fit in four bytes it fails, with
/// nothing appended and an error of kind `InvalidData`.
#[verifier::external_body]
pub(crate) fn write_string(s: &String, out: &mut Vec<u8>) -> (res: Result<(), IoError>)
    ensures
        match res {
            Ok(()) => string_fits(s@) && final(out)@ == old(out)@ + string_bytes(s@),
            Err(err) => !string_fits(s@) && final(out)@ == old(out)@ && err.kind
                == IoErrorKind::InvalidData && err.message@ == too_long_text(s@),
        },
{
    match borsh::BorshSerialize::serialize(s, out) {
        Ok(()) => Ok(()),
        Err(err) => {
            let kind = match err.kind() {
                std::io::ErrorKind::InvalidData => IoErrorKind::InvalidData,
                _ => IoErrorKind::Other,
            };
            Err(IoError { kind, message: err.to_string() })
        },
    }
}

/// Calls `borsh::BorshSerialize::serialize` on a `u128`. It appends the
/// sixteen bytes, and never fails when it writes to memory.
#[verifier::external_body]
pub(crate) fn write_u128(n: u128, out: &mut Vec<u8>) -> (res: Result<(), IoError>)
    ensures
        res is Ok,
        final(out)@ == old(out)@ + u128_bytes(n),
{
    match borsh::BorshSerialize::serialize(&n, out) {
        Ok(()) => Ok(()),
        Err(err) => {
            let kind = match err.kind() {
                std::io::ErrorKind::InvalidData => IoErrorKind::InvalidData,
                _ => IoErrorKind::Other,
            };
            Err(IoError { kind, message: err.to_string() })
        },
    }
}

/// Calls `borsh::BorshDeserialize::deserialize` for a string. It takes the
/// string off the front of the bytes. Where there is none it fails with an
/// error of kind `InvalidData`. Bytes that are not UTF-8 are used up by then,
/// and so are all bytes where fewer follow than announced. Where not even four
/// bytes are there, what is left is only known to be an end of them.
#[verifier::external_body]
pub(crate) fn read_string(reader: &mut &[u8]) -> (res: Result<String, IoError>)
    ensures
        match res {
            Ok(s) => read_string_spec(old(reader)@) == Some((s@, final(reader)@)),
            Err(err) => {
                &&& read_string_spec(old(reader)@) is None
                &&& err.kind == IoErrorKind::InvalidData
                &&& err.message@ == (if string_is_whole(old(reader)@) {
                    utf8_error_text(string_body(old(reader)@))
                } else {
                    "Unexpected length of input"@
                })
                &&& string_is_whole(old(reader)@) ==> final(reader)@ == string_rest(old(reader)@)
                &&& old(reader)@.len() >= 4 && !string_is_whole(old(reader)@) ==> final(reader)@
                    == Seq::<u8>::empty()
                &&& final(reader)@.is_suffix_of(old(reader)@)
            },
        },
{
    match borsh::BorshDeserialize::deserialize(reader) {
        Ok(s) => Ok(s),
        Err(err) => {
            let kind = match err.kind() {
                std::io::ErrorKind::InvalidData => IoErrorKind::InvalidData,
                _ => IoErrorKind::Other,
            };
            Err(IoError { kind, message: err.to_string() })
        },
    }
}

/// Calls `borsh::BorshDeserialize::deserialize` for a `u128`. It takes the
/// number off the front of the bytes. Where there are too few bytes it fails
/// with an error of kind `InvalidData`, and what is left then is only known to
/// be an end of what was there.
#[verifier::external_body]
pub(crate) fn read_u128(reader: &mut &[u8]) -> (res: Result<u128, IoError>)
    ensures
        match res {
            Ok(n) => read_u128_spec(old(reader)@) == Some((n, final(reader)@)),
            Err(err) => {
                &&& read_u128_spec(old(reader)@) is None
                &&& err.kind == IoErrorKind::InvalidData
                &&& err.message@ == "Unexpected length of input"@
                &&& final(reader)@.is_suffix_of(old(reader)@)
            },
        },
{
    match borsh::BorshDeserialize::deserialize(reader) {
        Ok(n) => Ok(n),
        Err(err) => {
            let kind = match err.kind() {
                std::io::ErrorKind::InvalidData => IoErrorKind::InvalidData,
                _ => IoErrorKind::Other,
            };
            Err(IoError { kind, message: err.to_string() })
        },
    }
}

} // verus!
