//! How the target of a payment on another chain is stored.

use vstd::arithmetic::power::pow;
use vstd::prelude::*;
use vstd::string::*;
use vstd::utf8::encode_utf8;

use crate::codec::{
    law_bytes_are_digits, law_string_layout, law_string_reads_back, law_string_writes_back,
    law_u128_reads_back, law_u128_writes_back, le_bytes, lemma_le_bytes_split, lemma_le_ranges,
    read_string, read_string_spec, read_u128, read_u128_spec, short_failure, string_bytes,
    string_failure, string_fits, too_long_text, u128_bytes, write_string, write_u128, IoError,
    IoErrorKind, ReadFailure,
};
use crate::identifiers::{channel_id_error, port_id_error, ChannelId, PortId};
use crate::pgf::PGFIbcTarget;
use crate::types::Amount;

verus! {

/// What a target on another chain stands for.
pub struct IbcTargetView {
    /// The target address on the target chain.
    pub target: Seq<char>,
    /// What is paid.
    pub amount: Amount,
    /// The text of the port identifier.
    pub port_id: Seq<char>,
    /// The text of the channel identifier.
    pub channel_id: Seq<char>,
}

impl View for PGFIbcTarget {
    type V = IbcTargetView;

    open spec fn view(&self) -> IbcTargetView {
        IbcTargetView {
            target: self.target@,
            amount: self.amount,
            port_id: self.port_id@,
            channel_id: self.channel_id@,
        }
    }
}

impl IbcTargetView {
    /// Both identifiers are ones that are accepted.
    pub open spec fn valid(self) -> bool {
        &&& port_id_error(self.port_id) is None
        &&& channel_id_error(self.channel_id) is None
    }

    /// Every text is short enough to be written.
    pub open spec fn fits(self) -> bool {
        &&& string_fits(self.target)
        &&& string_fits(self.port_id)
        &&& string_fits(self.channel_id)
    }

    /// The stored form: address, amount, port and channel, in this order.
    pub open spec fn bytes(self) -> Seq<u8> {
        string_bytes(self.target) + amount_bytes(self.amount) + string_bytes(self.port_id)
            + string_bytes(self.channel_id)
    }

    /// The first text that is too long to be written, if there is one.
    pub open spec fn first_that_does_not_fit(self) -> Option<Seq<char>> {
        if !string_fits(self.target) {
            Some(self.target)
        } else if !string_fits(self.port_id) {
            Some(self.port_id)
        } else if !string_fits(self.channel_id) {
            Some(self.channel_id)
        } else {
            None
        }
    }

    /// The part of the stored form that stands before the first text that is
    /// too long to be written; all of it where there is no such text.
    pub open spec fn bytes_that_fit(self) -> Seq<u8> {
        if !string_fits(self.target) {
            seq![]
        } else if !string_fits(self.port_id) {
            string_bytes(self.target) + amount_bytes(self.amount)
        } else if !string_fits(self.channel_id) {
            string_bytes(self.target) + amount_bytes(self.amount) + string_bytes(self.port_id)
        } else {
            self.bytes()
        }
    }
}

/// The bytes of an amount, the least significant first.
pub open spec fn amount_bytes(amount: Amount) -> Seq<u8> {
    u128_bytes(amount.low) + u128_bytes(amount.high)
}

/// The amount at the start of `bytes` and what follows it, where there are
/// enough bytes.
pub open spec fn read_amount_spec(bytes: Seq<u8>) -> Option<(Amount, Seq<u8>)> {
    match read_u128_spec(bytes) {
        Some((low, after_low)) => match read_u128_spec(after_low) {
            Some((high, rest)) => Some((Amount { high, low }, rest)),
            None => None,
        },
        None => None,
    }
}

/// What reading a stored target comes to.
pub enum Reading {
    /// A target, and the bytes behind it.
    Target { value: IbcTargetView, rest: Seq<u8> },
    /// The bytes end too early, or a text is not UTF-8.
    Malformed(ReadFailure),
    /// The port identifier is refused; `rest` stands behind it.
    PortId { message: Seq<char>, rest: Seq<u8> },
    /// The channel identifier is refused; `rest` stands behind it.
    ChannelId { message: Seq<char>, rest: Seq<u8> },
}

/// What is said of a port identifier that is refused.
pub open spec fn port_id_message(reason: Seq<char>) -> Seq<char> {
    "Error decoding port ID: "@ + reason
}

/// What is said of a channel identifier that is refused.
pub open spec fn channel_id_message(reason: Seq<char>) -> Seq<char> {
    "Error decoding channel ID: "@ + reason
}

/// What reading the channel, the last field, comes to.
pub open spec fn read_channel_spec(
    target: Seq<char>,
    amount: Amount,
    port_id: Seq<char>,
    bytes: Seq<u8>,
) -> Reading {
    match read_string_spec(bytes) {
        Some((channel_id, rest)) => match channel_id_error(channel_id) {
            Some(reason) => Reading::ChannelId { message: channel_id_message(reason), rest },
            None => Reading::Target {
                value: IbcTargetView { target, amount, port_id, channel_id },
                rest,
            },
        },
        None => Reading::Malformed(string_failure(bytes)),
    }
}

/// What reading the port and then the channel comes to.
pub open spec fn read_port_spec(target: Seq<char>, amount: Amount, bytes: Seq<u8>) -> Reading {
    match read_string_spec(bytes) {
        Some((port_id, rest)) => match port_id_error(port_id) {
            Some(reason) => Reading::PortId { message: port_id_message(reason), rest },
            None => read_channel_spec(target, amount, port_id, rest),
        },
        None => Reading::Malformed(string_failure(bytes)),
    }
}

/// What reading a stored target comes to. The port identifier is looked at
/// before the channel identifier is read.
pub open spec fn read_target_spec(bytes: Seq<u8>) -> Reading {
    match read_string_spec(bytes) {
        Some((target, after_target)) => match read_amount_spec(after_target) {
            Some((amount, after_amount)) => read_port_spec(target, amount, after_amount),
            None => Reading::Malformed(short_failure()),
        },
        None => Reading::Malformed(string_failure(bytes)),
    }
}

/// Why a target could not be written or read.
#[derive(Debug, Clone, PartialEq, Eq)]
pub enum CodecError {
    /// The bytes could not be written or read.
    Io(IoError),
    /// The port identifier is refused, for the reason in the message.
    PortId(String),
    /// The channel identifier is refused, for the reason in the message.
    ChannelId(String),
}

impl CodecError {
    /// The sort of error. Refused identifiers are invalid data.
    pub open spec fn sort(&self) -> IoErrorKind {
        match self {
            CodecError::Io(err) => err.kind,
            CodecError::PortId(_) => IoErrorKind::InvalidData,
            CodecError::ChannelId(_) => IoErrorKind::InvalidData,
        }
    }

    /// What is said of the error.
    pub open spec fn text(&self) -> Seq<char> {
        match self {
            CodecError::Io(err) => err.message@,
            CodecError::PortId(message) => message@,
            CodecError::ChannelId(message) => message@,
        }
    }

    /// The sort of error.
    pub fn kind(&self) -> (res: IoErrorKind)
        ensures
            res == self.sort(),
    {
        match self {
            CodecError::Io(err) => err.kind,
            CodecError::PortId(_) => IoErrorKind::InvalidData,
            CodecError::ChannelId(_) => IoErrorKind::InvalidData,
        }
    }

    /// What is said of the error.
    pub fn to_string(&self) -> (res: String)
        ensures
            res@ == self.text(),
    {
        match self {
            CodecError::Io(err) => err.message.clone(),
            CodecError::PortId(message) => message.clone(),
            CodecError::ChannelId(message) => message.clone(),
        }
    }
}

/// Reads the amount off the front of the bytes.
fn read_amount(reader: &mut &[u8]) -> (res: Result<Amount, IoError>)
    ensures
        match res {
            Ok(amount) => read_amount_spec(old(reader)@) == Some((amount, final(reader)@)),
            Err(err) => {
                &&& read_amount_spec(old(reader)@) is None
                &&& err.kind == IoErrorKind::InvalidData
                &&& err.message@ == short_failure().message
                &&& final(reader)@.is_suffix_of(old(reader)@)
            },
        },
{
    let low: u128 = match read_u128(reader) {
        Ok(low) => low,
        Err(err) => return Err(err),
    };
    match read_u128(reader) {
        Ok(high) => Ok(Amount { high, low }),
        Err(err) => Err(err),
    }
}

impl PGFIbcTarget {
    /// Appends the stored form to `writer`. A text that is too long stops the
    /// writing; the fields before it are written by then.
    pub fn serialize(&self, writer: &mut Vec<u8>) -> (res: Result<(), CodecError>)
        ensures
            match res {
                Ok(()) => self@.fits(),
                Err(err) => {
                    &&& err is Io
                    &&& err.sort() == IoErrorKind::InvalidData
                    &&& self@.first_that_does_not_fit() is Some
                    &&& err.text() == too_long_text(self@.first_that_does_not_fit()->Some_0)
                },
            },
            final(writer)@ == old(writer)@ + self@.bytes_that_fit(),
    {
        if let Err(err) = write_string(&self.target, writer) {
            assert(writer@ =~= old(writer)@ + self@.bytes_that_fit());
            return Err(CodecError::Io(err));
        }
        if let Err(err) = write_u128(self.amount.low, writer) {
            return Err(CodecError::Io(err));
        }
        if let Err(err) = write_u128(self.amount.high, writer) {
            return Err(CodecError::Io(err));
        }
        if let Err(err) = write_string(&self.port_id.to_string(), writer) {
            assert(writer@ =~= old(writer)@ + self@.bytes_that_fit());
            return Err(CodecError::Io(err));
        }
        if let Err(err) = write_string(&self.channel_id.to_string(), writer) {
            assert(writer@ =~= old(writer)@ + self@.bytes_that_fit());
            return Err(CodecError::Io(err));
        }
        assert(writer@ =~= old(writer)@ + self@.bytes_that_fit());
        Ok(())
    }

    /// Accepts the text of a stored port identifier, or says why not.
    pub fn decode_port_id(port_id: String) -> (res: Result<PortId, CodecError>)
        ensures
            match port_id_error(port_id@) {
                None => res is Ok && res->Ok_0@ == port_id@,
                Some(reason) => res is Err && res->Err_0 is PortId && res->Err_0->PortId_0@
                    == port_id_message(reason),
            },
    {
        match PortId::parse(port_id.as_str()) {
            Ok(port_id) => Ok(port_id),
            Err(reason) => {
                let mut message = String::new();
                message.append("Error decoding port ID: ");
                message.append(reason.as_str());
                assert(message@ =~= port_id_message(reason@));
                Err(CodecError::PortId(message))
            },
        }
    }

    /// Accepts the text of a stored channel identifier, or says why not.
    pub fn decode_channel_id(channel_id: String) -> (res: Result<ChannelId, CodecError>)
        ensures
            match channel_id_error(channel_id@) {
                None => res is Ok && res->Ok_0@ == channel_id@,
                Some(reason) => res is Err && res->Err_0 is ChannelId && res->Err_0->ChannelId_0@
                    == channel_id_message(reason),
            },
    {
        match ChannelId::parse(channel_id.as_str()) {
            Ok(channel_id) => Ok(channel_id),
            Err(reason) => {
                let mut message = String::new();
                message.append("Error decoding channel ID: ");
                message.append(reason.as_str());
                assert(message@ =~= channel_id_message(reason@));
                Err(CodecError::ChannelId(message))
            },
        }
    }

    /// Reads a stored target off the front of the bytes.
    pub fn deserialize_reader(reader: &mut &[u8]) -> (res: Result<Self, CodecError>)
        ensures
            match read_target_spec(old(reader)@) {
                Reading::Target { value, rest } => res is Ok && res->Ok_0@ == value
                    && final(reader)@ == rest,
                Reading::Malformed(failure) => {
                    &&& res is Err
                    &&& res->Err_0 is Io
                    &&& res->Err_0.text() == failure.message
                    &&& failure.rest is Some ==> final(reader)@ == failure.rest->Some_0
                    &&& final(reader)@.is_suffix_of(old(reader)@)
                },
                Reading::PortId { message, rest } => res is Err && res->Err_0 is PortId
                    && res->Err_0->PortId_0@ == message && final(reader)@ == rest,
                Reading::ChannelId { message, rest } => res is Err && res->Err_0 is ChannelId
                    && res->Err_0->ChannelId_0@ == message && final(reader)@ == rest,
            },
            res is Err ==> res->Err_0.sort() == IoErrorKind::InvalidData,
    {
        let target: String = match read_string(reader) {
            Ok(target) => target,
            Err(err) => return Err(CodecError::Io(err)),
        };
        let amount: Amount = match read_amount(reader) {
            Ok(amount) => amount,
            Err(err) => return Err(CodecError::Io(err)),
        };
        let port_id: String = match read_string(reader) {
            Ok(port_id) => port_id,
            Err(err) => return Err(CodecError::Io(err)),
        };
        let port_id: PortId = match Self::decode_port_id(port_id) {
            Ok(port_id) => port_id,
            Err(err) => return Err(err),
        };
        let channel_id: String = match read_string(reader) {
            Ok(channel_id) => channel_id,
            Err(err) => return Err(CodecError::Io(err)),
        };
        let channel_id: ChannelId = match Self::decode_channel_id(channel_id) {
            Ok(channel_id) => channel_id,
            Err(err) => return Err(err),
        };
        Ok(PGFIbcTarget { target, amount, port_id, channel_id })
    }
}

/// An amount is stored as one number of 32 bytes, the least significant first.
pub proof fn law_amount_is_one_number(amount: Amount)
    ensures
        amount_bytes(amount) == le_bytes(amount@, 32),
{
    lemma_le_ranges();
    lemma_le_bytes_split(amount.low as nat, amount.high as nat, 16, 16);
}

/// A target with accepted identifiers that was written is read back, whatever
/// follows it.
pub proof fn law_target_reads_back(value: IbcTargetView, rest: Seq<u8>)
    requires
        value.valid(),
        value.fits(),
    ensures
        read_target_spec(value.bytes() + rest) == (Reading::Target { value, rest }),
{
    let after_port = string_bytes(value.channel_id) + rest;
    let after_amount = string_bytes(value.port_id) + after_port;
    let after_low = u128_bytes(value.amount.high) + after_amount;
    let after_target = u128_bytes(value.amount.low) + after_low;
    law_string_reads_back(value.channel_id, rest);
    law_string_reads_back(value.port_id, after_port);
    law_u128_reads_back(value.amount.high, after_amount);
    law_u128_reads_back(value.amount.low, after_low);
    law_string_reads_back(value.target, after_target);
    assert(value.bytes() + rest =~= string_bytes(value.target) + after_target);
}

/// A target that was read has accepted identifiers, and is written with the
/// very bytes that it was read from.
pub proof fn law_target_writes_back(bytes: Seq<u8>)
    ensures
        match read_target_spec(bytes) {
            Reading::Target { value, rest } => value.valid() && value.fits() && value.bytes() + rest
                == bytes,
            _ => true,
        },
{
    if let Reading::Target { value, rest } = read_target_spec(bytes) {
        law_string_writes_back(bytes);
        let after_target = read_string_spec(bytes)->Some_0.1;
        law_u128_writes_back(after_target);
        let after_low = read_u128_spec(after_target)->Some_0.1;
        law_u128_writes_back(after_low);
        let after_amount = read_u128_spec(after_low)->Some_0.1;
        law_string_writes_back(after_amount);
        let after_port = read_string_spec(after_amount)->Some_0.1;
        law_string_writes_back(after_port);
        assert(value.bytes() + rest =~= bytes);
    }
}

/// Two targets that are stored alike are the same.
pub proof fn law_stored_form_is_unique(a: IbcTargetView, b: IbcTargetView)
    requires
        a.fits(),
        b.fits(),
        a.bytes() == b.bytes(),
    ensures
        a == b,
{
    let none = Seq::<u8>::empty();
    let a_port = string_bytes(a.channel_id) + none;
    let a_amount = string_bytes(a.port_id) + a_port;
    let a_low = u128_bytes(a.amount.high) + a_amount;
    let a_target = u128_bytes(a.amount.low) + a_low;
    let b_port = string_bytes(b.channel_id) + none;
    let b_amount = string_bytes(b.port_id) + b_port;
    let b_low = u128_bytes(b.amount.high) + b_amount;
    let b_target = u128_bytes(b.amount.low) + b_low;
    assert(a.bytes() =~= string_bytes(a.target) + a_target);
    assert(b.bytes() =~= string_bytes(b.target) + b_target);
    law_string_reads_back(a.target, a_target);
    law_string_reads_back(b.target, b_target);
    law_u128_reads_back(a.amount.low, a_low);
    law_u128_reads_back(b.amount.low, b_low);
    law_u128_reads_back(a.amount.high, a_amount);
    law_u128_reads_back(b.amount.high, b_amount);
    law_string_reads_back(a.port_id, a_port);
    law_string_reads_back(b.port_id, b_port);
    law_string_reads_back(a.channel_id, none);
    law_string_reads_back(b.channel_id, none);
}

/// A target stands for its own fields, the identifiers by their texts.
pub proof fn law_view_keeps_every_field(target: PGFIbcTarget)
    ensures
        target@.target == target.target@,
        target@.amount == target.amount,
        target@.port_id == target.port_id.id@,
        target@.channel_id == target.channel_id.id@,
{
}

/// An amount is stored in 32 bytes, of which the one at place `i` counts for
/// `256^i`.
pub proof fn law_amount_layout(amount: Amount)
    ensures
        amount_bytes(amount).len() == 32,
        forall|i: int|
            0 <= i < 32 ==> #[trigger] amount_bytes(amount)[i] as int == ((amount.high
                * 0x1_0000_0000_0000_0000_0000_0000_0000_0000int + amount.low) / pow(
                256,
                i as nat,
            )) % 256,
{
    law_amount_is_one_number(amount);
    law_bytes_are_digits(amount@, 32);
}

/// An amount that was written is read back, whatever follows it, and one that
/// was read is written with the very bytes that it was read from. Fewer than 32
/// bytes hold none.
pub proof fn law_amount_reads_and_writes_back(amount: Amount, bytes: Seq<u8>, rest: Seq<u8>)
    ensures
        read_amount_spec(amount_bytes(amount) + rest) == Some((amount, rest)),
        match read_amount_spec(bytes) {
            Some((read, left)) => bytes == amount_bytes(read) + left,
            None => bytes.len() < 32,
        },
{
    let after_low = u128_bytes(amount.high) + rest;
    law_u128_reads_back(amount.high, rest);
    law_u128_reads_back(amount.low, after_low);
    assert(amount_bytes(amount) + rest =~= u128_bytes(amount.low) + after_low);
    law_u128_writes_back(bytes);
    if let Some((low, left)) = read_u128_spec(bytes) {
        law_u128_writes_back(left);
        if let Some((high, end)) = read_u128_spec(left) {
            assert(bytes =~= amount_bytes(Amount { high, low }) + end);
        }
    }
}

/// Whatever the values are, the stored form is the target behind the number of
/// its bytes, then the 32 bytes of the amount, the least significant first,
/// then the port identifier behind the number of its bytes, and then the
/// channel identifier behind the number of its bytes.
pub proof fn law_fields_are_stored_in_order(value: IbcTargetView)
    requires
        value.fits(),
    ensures
        ({
            let bytes = value.bytes();
            let target = encode_utf8(value.target);
            let port_id = encode_utf8(value.port_id);
            let channel_id = encode_utf8(value.channel_id);
            let amount = value.amount.high * 0x1_0000_0000_0000_0000_0000_0000_0000_0000int
                + value.amount.low;
            let at_amount = 4 + target.len() as int;
            let at_port = at_amount + 32;
            let at_channel = at_port + 4 + port_id.len();
            &&& bytes.len() == at_channel + 4 + channel_id.len()
            &&& bytes[0] + 0x100 * bytes[1] + 0x1_0000 * bytes[2] + 0x100_0000 * bytes[3]
                == target.len()
            &&& bytes.subrange(4, at_amount) == target
            &&& forall|i: int|
                0 <= i < 32 ==> #[trigger] bytes.skip(at_amount)[i] as int == (amount / pow(
                    256,
                    i as nat,
                )) % 256
            &&& bytes[at_port] + 0x100 * bytes[at_port + 1] + 0x1_0000 * bytes[at_port + 2]
                + 0x100_0000 * bytes[at_port + 3] == port_id.len()
            &&& bytes.subrange(at_port + 4, at_channel) == port_id
            &&& bytes[at_channel] + 0x100 * bytes[at_channel + 1] + 0x1_0000 * bytes[at_channel + 2]
                + 0x100_0000 * bytes[at_channel + 3] == channel_id.len()
            &&& bytes.skip(at_channel + 4) == channel_id
        }),
{
    let bytes = value.bytes();
    let a = string_bytes(value.target);
    let b = amount_bytes(value.amount);
    let c = string_bytes(value.port_id);
    let d = string_bytes(value.channel_id);
    let at_amount = a.len() as int;
    let at_port = at_amount + 32;
    let at_channel = at_port + c.len();
    law_string_layout(value.target);
    law_string_layout(value.port_id);
    law_string_layout(value.channel_id);
    law_amount_layout(value.amount);
    assert(bytes =~= a + (b + (c + d)));
    assert(forall|i: int| 0 <= i < a.len() ==> bytes[i] == a[i]);
    assert(forall|i: int| 0 <= i < 32 ==> bytes.skip(at_amount)[i] == b[i]);
    assert(forall|i: int| 0 <= i < c.len() ==> bytes.skip(at_port)[i] == c[i]);
    assert(forall|i: int| 0 <= i < d.len() ==> bytes.skip(at_channel)[i] == d[i]);
    assert(bytes.subrange(4, at_amount) =~= a.skip(4));
    assert(bytes.subrange(at_port + 4, at_channel) =~= c.skip(4));
    assert(bytes.skip(at_channel + 4) =~= d.skip(4));
    assert(c[0] == bytes.skip(at_port)[0]);
    assert(c[1] == bytes.skip(at_port)[1]);
    assert(c[2] == bytes.skip(at_port)[2]);
    assert(c[3] == bytes.skip(at_port)[3]);
    assert(d[0] == bytes.skip(at_channel)[0]);
    assert(d[1] == bytes.skip(at_channel)[1]);
    assert(d[2] == bytes.skip(at_channel)[2]);
    assert(d[3] == bytes.skip(at_channel)[3]);
}

/// Whatever the values are, reading the target, the amount, the port identifier
/// and the channel identifier, stored in this order, gives those four values,
/// each in its own field, and leaves what follows them.
pub proof fn law_fields_are_read_in_order(
    target: Seq<char>,
    amount: Amount,
    port_id: Seq<char>,
    channel_id: Seq<char>,
    rest: Seq<u8>,
)
    requires
        string_fits(target),
        string_fits(port_id),
        string_fits(channel_id),
        port_id_error(port_id) is None,
        channel_id_error(channel_id) is None,
    ensures
        read_target_spec(
            string_bytes(target) + amount_bytes(amount) + string_bytes(port_id) + string_bytes(
                channel_id,
            ) + rest,
        ) == (Reading::Target {
            value: IbcTargetView { target, amount, port_id, channel_id },
            rest,
        }),
{
    law_target_reads_back(IbcTargetView { target, amount, port_id, channel_id }, rest);
}

/// A target can be stored where each of its three texts has fewer than 2^32
/// bytes.
pub proof fn law_targets_that_fit(value: IbcTargetView)
    ensures
        value.fits() <==> {
            &&& encode_utf8(value.target).len() < 0x1_0000_0000
            &&& encode_utf8(value.port_id).len() < 0x1_0000_0000
            &&& encode_utf8(value.channel_id).len() < 0x1_0000_0000
        },
        value.valid() <==> {
            &&& port_id_error(value.port_id) is None
            &&& channel_id_error(value.channel_id) is None
        },
{
}

/// Writing stops at the first text of 2^32 bytes or more, and the fields before
/// it are written as they are where every text fits.
pub proof fn law_writing_stops_at_what_does_not_fit(value: IbcTargetView)
    ensures
        ({
            let target = encode_utf8(value.target).len();
            let port_id = encode_utf8(value.port_id).len();
            let channel_id = encode_utf8(value.channel_id).len();
            &&& 0x1_0000_0000 <= target ==> {
                &&& value.first_that_does_not_fit() == Some(value.target)
                &&& value.bytes_that_fit().len() == 0
            }
            &&& target < 0x1_0000_0000 <= port_id ==> {
                &&& value.first_that_does_not_fit() == Some(value.port_id)
                &&& value.bytes_that_fit() == value.bytes().take(36 + target as int)
            }
            &&& target < 0x1_0000_0000 && port_id < 0x1_0000_0000 <= channel_id ==> {
                &&& value.first_that_does_not_fit() == Some(value.channel_id)
                &&& value.bytes_that_fit() == value.bytes().take(40 + target as int + port_id)
            }
            &&& target < 0x1_0000_0000 && port_id < 0x1_0000_0000 && channel_id < 0x1_0000_0000 ==> {
                &&& value.first_that_does_not_fit() is None
                &&& value.bytes_that_fit() == value.bytes()
            }
        }),
{
    law_string_layout(value.target);
    law_string_layout(value.port_id);
    law_amount_layout(value.amount);
    let head = string_bytes(value.target) + amount_bytes(value.amount);
    let more = head + string_bytes(value.port_id);
    assert(value.bytes().take(head.len() as int) =~= head);
    assert(value.bytes().take(more.len() as int) =~= more);
}

/// The bytes up to a text that is too long do not depend on that text or on what
/// stands behind it.
pub proof fn law_fields_are_written_one_by_one(value: IbcTargetView, other: IbcTargetView)
    requires
        value.target == other.target,
        value.amount == other.amount,
        encode_utf8(value.port_id).len() >= 0x1_0000_0000,
    ensures
        value.bytes_that_fit() == other.bytes().take(value.bytes_that_fit().len() as int),
{
    law_writing_stops_at_what_does_not_fit(value);
    law_string_layout(value.target);
    law_amount_layout(value.amount);
    let head = string_bytes(value.target) + amount_bytes(value.amount);
    assert(other.bytes().take(head.len() as int) =~= head);
    assert(other.bytes().take(0) =~= Seq::<u8>::empty());
}

/// A port identifier that is refused ends the reading with the reason, whatever
/// stands behind it, and all of that is left.
pub proof fn law_refused_port_is_told(
    target: Seq<char>,
    amount: Amount,
    port_id: Seq<char>,
    rest: Seq<u8>,
)
    requires
        string_fits(target),
        string_fits(port_id),
        port_id_error(port_id) is Some,
    ensures
        read_target_spec(
            string_bytes(target) + amount_bytes(amount) + string_bytes(port_id) + rest,
        ) == (Reading::PortId {
            message: "Error decoding port ID: "@ + port_id_error(port_id)->Some_0,
            rest,
        }),
{
    let after_amount = string_bytes(port_id) + rest;
    let after_target = amount_bytes(amount) + after_amount;
    law_string_reads_back(port_id, rest);
    law_amount_reads_and_writes_back(amount, rest, after_amount);
    law_string_reads_back(target, after_target);
    assert(string_bytes(target) + amount_bytes(amount) + string_bytes(port_id) + rest
        =~= string_bytes(target) + after_target);
}

/// A channel identifier that is refused behind a port identifier that is
/// accepted ends the reading with the reason, and what stands behind it is left.
pub proof fn law_refused_channel_is_told(
    target: Seq<char>,
    amount: Amount,
    port_id: Seq<char>,
    channel_id: Seq<char>,
    rest: Seq<u8>,
)
    requires
        string_fits(target),
        string_fits(port_id),
        string_fits(channel_id),
        port_id_error(port_id) is None,
        channel_id_error(channel_id) is Some,
    ensures
        read_target_spec(
            string_bytes(target) + amount_bytes(amount) + string_bytes(port_id) + string_bytes(
                channel_id,
            ) + rest,
        ) == (Reading::ChannelId {
            message: "Error decoding channel ID: "@ + channel_id_error(channel_id)->Some_0,
            rest,
        }),
{
    let after_port = string_bytes(channel_id) + rest;
    let after_amount = string_bytes(port_id) + after_port;
    let after_target = amount_bytes(amount) + after_amount;
    law_string_reads_back(channel_id, rest);
    law_string_reads_back(port_id, after_port);
    law_amount_reads_and_writes_back(amount, rest, after_amount);
    law_string_reads_back(target, after_target);
    assert(string_bytes(target) + amount_bytes(amount) + string_bytes(port_id) + string_bytes(
        channel_id,
    ) + rest =~= string_bytes(target) + after_target);
}

/// Bytes that end, or are not UTF-8, in the target, in the amount, in the port
/// identifier or in the channel identifier end the reading there, for the reason
/// that holds of the field that could not be read.
pub proof fn law_reading_stops_at_what_is_malformed(
    target: Seq<char>,
    amount: Amount,
    port_id: Seq<char>,
    tail: Seq<u8>,
)
    requires
        string_fits(target),
        string_fits(port_id),
        port_id_error(port_id) is None,
    ensures
        read_string_spec(tail) is None ==> {
            &&& read_target_spec(tail) == Reading::Malformed(string_failure(tail))
            &&& read_target_spec(string_bytes(target) + amount_bytes(amount) + tail)
                == Reading::Malformed(string_failure(tail))
            &&& read_target_spec(
                string_bytes(target) + amount_bytes(amount) + string_bytes(port_id) + tail,
            ) == Reading::Malformed(string_failure(tail))
        },
        tail.len() < 32 ==> read_target_spec(string_bytes(target) + tail) == Reading::Malformed(
            ReadFailure { message: "Unexpected length of input"@, rest: None },
        ),
{
    let after_amount = string_bytes(port_id) + tail;
    law_string_reads_back(port_id, tail);
    law_amount_reads_and_writes_back(amount, tail, tail);
    law_amount_reads_and_writes_back(amount, tail, after_amount);
    law_amount_layout(read_amount_spec(tail)->Some_0.0);
    law_string_reads_back(target, tail);
    law_string_reads_back(target, amount_bytes(amount) + tail);
    law_string_reads_back(target, amount_bytes(amount) + after_amount);
    assert(string_bytes(target) + amount_bytes(amount) + tail =~= string_bytes(target) + (
    amount_bytes(amount) + tail));
    assert(string_bytes(target) + amount_bytes(amount) + string_bytes(port_id) + tail
        =~= string_bytes(target) + (amount_bytes(amount) + after_amount));
}

/// A refused identifier is invalid data, and is told with the words of its
/// message; any other error is told with its own kind and words.
pub proof fn law_errors_are_told(err: CodecError)
    ensures
        err matches CodecError::Io(io) ==> err.sort() == io.kind && err.text() == io.message@,
        err matches CodecError::PortId(message) ==> err.sort() == IoErrorKind::InvalidData
            && err.text() == message@,
        err matches CodecError::ChannelId(message) ==> err.sort() == IoErrorKind::InvalidData
            && err.text() == message@,
{
}

/// The message about a refused identifier says which identifier it is, and then
/// the reason.
pub proof fn law_messages_name_the_identifier(reason: Seq<char>)
    ensures
        port_id_message(reason) == "Error decoding port ID: "@ + reason,
        channel_id_message(reason) == "Error decoding channel ID: "@ + reason,
{
}

} // verus!
