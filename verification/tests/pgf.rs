use std::collections::BTreeMap;

use borsh::schema::{Definition, Fields};

use namada_governance::codec::{IoError, IoErrorKind};
use namada_governance::ibc_target::CodecError;
use namada_governance::identifiers::{ChannelId, PortId};
use namada_governance::onchain::{PgfAction, PgfContinuous, PgfRetro};
use namada_governance::pgf::{
    AddRemove, PGFAction, PGFIbcTarget, PGFInternalTarget, PGFTarget, StoragePgfFunding,
};
use namada_governance::types::{Address, Amount};

fn internal() -> PGFTarget {
    PGFTarget::Internal(PGFInternalTarget {
        target: Address::new("tnam1payee".to_string()),
        amount: Amount { high: 0, low: 1_000_000 },
    })
}

fn ibc_target() -> PGFIbcTarget {
    PGFIbcTarget {
        target: "cosmos1\u{e9}".to_string(),
        amount: Amount { high: 0x0102, low: 0x0a0b_0c0d },
        port_id: PortId::parse("transfer").unwrap(),
        channel_id: ChannelId::parse("channel-16").unwrap(),
    }
}

/// The limbs that the amount of `ibc_target` has in storage.
const LIMBS: [u64; 4] = [0x0a0b_0c0d, 0, 0x0102, 0];

fn stored(target: &str, limbs: [u64; 4], port_id: &str, channel_id: &str) -> Vec<u8> {
    borsh::to_vec(&(
        target.to_string(),
        limbs,
        port_id.to_string(),
        channel_id.to_string(),
    ))
    .unwrap()
}

#[test]
fn targets_and_amounts() {
    assert_eq!(internal().target(), "tnam1payee");
    assert_eq!(internal().amount(), Amount { high: 0, low: 1_000_000 });
    let ibc = PGFTarget::Ibc(ibc_target());
    assert_eq!(ibc.target(), "cosmos1\u{e9}");
    assert_eq!(ibc.amount(), Amount { high: 0x0102, low: 0x0a0b_0c0d });
}

#[test]
fn a_funding_keeps_what_it_is_made_of() {
    let funding = StoragePgfFunding::new(internal(), 17);
    assert_eq!(funding.detail, internal());
    assert_eq!(funding.id, 17);
}

#[test]
fn amounts_are_ordered_by_value() {
    assert!(Amount { high: 0, low: u128::MAX } < Amount { high: 1, low: 0 });
    assert!(Amount { high: 1, low: 2 } < Amount { high: 1, low: 3 });
}

#[test]
fn actions() {
    assert_eq!(
        PGFAction::from(PgfContinuous { target: internal(), action: PgfAction::Add }),
        PGFAction::Continuous(AddRemove::Add(internal()))
    );
    assert_eq!(
        PGFAction::from(PgfContinuous { target: internal(), action: PgfAction::Remove }),
        PGFAction::Continuous(AddRemove::Remove(internal()))
    );
    assert_eq!(
        PGFAction::from(PgfRetro { target: internal() }),
        PGFAction::Retro(internal())
    );
}

#[test]
fn stored_form() {
    let mut out = vec![0xff];
    ibc_target().serialize(&mut out).unwrap();
    let mut expected = vec![0xff];
    expected.extend_from_slice(&[9, 0, 0, 0]);
    expected.extend_from_slice("cosmos1\u{e9}".as_bytes());
    expected.extend_from_slice(&[0x0d, 0x0c, 0x0b, 0x0a, 0, 0, 0, 0, 0, 0, 0, 0, 0, 0, 0, 0]);
    expected.extend_from_slice(&[0x02, 0x01, 0, 0, 0, 0, 0, 0, 0, 0, 0, 0, 0, 0, 0, 0]);
    expected.extend_from_slice(&[8, 0, 0, 0]);
    expected.extend_from_slice(b"transfer");
    expected.extend_from_slice(&[10, 0, 0, 0]);
    expected.extend_from_slice(b"channel-16");
    assert_eq!(out, expected);
    assert_eq!(out[1..].to_vec(), stored("cosmos1\u{e9}", LIMBS, "transfer", "channel-16"));
}

#[test]
fn stored_targets_are_read_back() {
    let mut bytes = Vec::new();
    ibc_target().serialize(&mut bytes).unwrap();
    bytes.extend_from_slice(b"rest");
    let mut reader: &[u8] = &bytes;
    assert_eq!(PGFIbcTarget::deserialize_reader(&mut reader).unwrap(), ibc_target());
    assert_eq!(reader, b"rest");
}

#[test]
fn what_was_read_is_written_alike() {
    let bytes = stored("payee", [1, 2, 3, 4], "[a.b]<c>", "channel-+7");
    let mut reader: &[u8] = &bytes;
    let target = PGFIbcTarget::deserialize_reader(&mut reader).unwrap();
    assert!(reader.is_empty());
    assert_eq!(
        target.amount,
        Amount { high: (4u128 << 64) + 3, low: (2u128 << 64) + 1 }
    );
    let mut out = Vec::new();
    target.serialize(&mut out).unwrap();
    assert_eq!(out, bytes);
}

#[test]
fn every_cut_is_malformed() {
    let bytes = stored("payee", [1, 2, 3, 4], "transfer", "channel-7");
    for len in 0..bytes.len() {
        let mut reader: &[u8] = &bytes[..len];
        match PGFIbcTarget::deserialize_reader(&mut reader) {
            Err(CodecError::Io(err)) => {
                assert_eq!(err.kind, IoErrorKind::InvalidData);
                assert_eq!(err.message, "Unexpected length of input");
            }
            other => panic!("{} bytes gave {:?}", len, other),
        }
        assert!(bytes[..len].ends_with(reader));
        if (4..9).contains(&len) {
            assert!(reader.is_empty());
        }
    }
}

#[test]
fn texts_must_be_utf8() {
    let mut bytes = stored("ab", [0; 4], "transfer", "channel-7");
    bytes[4] = 0xff;
    let mut reader: &[u8] = &bytes;
    let err = PGFIbcTarget::deserialize_reader(&mut reader).unwrap_err();
    let message = String::from_utf8(vec![0xff, b'b']).unwrap_err().to_string();
    assert_eq!(err.kind(), IoErrorKind::InvalidData);
    assert_eq!(err.to_string(), message);
    assert_eq!(
        err,
        CodecError::Io(IoError { kind: IoErrorKind::InvalidData, message })
    );
    assert_eq!(reader, &bytes[6..]);
}

#[test]
fn refused_identifiers_are_invalid_data() {
    let err = PGFIbcTarget::decode_port_id("p".to_string()).unwrap_err();
    assert_eq!(err.kind(), IoErrorKind::InvalidData);
    assert!(err.to_string().starts_with("Error decoding port ID: "));
    let err = PGFIbcTarget::decode_channel_id("c".to_string()).unwrap_err();
    assert_eq!(err.kind(), IoErrorKind::InvalidData);
    assert!(err.to_string().starts_with("Error decoding channel ID: "));
}

#[test]
fn a_bad_port_is_reported_before_the_channel_is_read() {
    let mut bytes = stored("ab", [0; 4], "a/b", "channel-7");
    let port_end = 4 + 2 + 32 + 4 + 3;
    let mut reader: &[u8] = &bytes;
    match PGFIbcTarget::deserialize_reader(&mut reader) {
        Err(CodecError::PortId(message)) => assert_eq!(
            message,
            "Error decoding port ID: identifier `a/b` must only contain alphanumeric \
             characters or `.`, `_`, `+`, `-`, `#`, - `[`, `]`, `<`, `>`"
        ),
        other => panic!("{:?}", other),
    }
    assert_eq!(reader, &bytes[port_end..]);
    bytes.truncate(port_end);
    let mut reader: &[u8] = &bytes;
    assert!(matches!(
        PGFIbcTarget::deserialize_reader(&mut reader),
        Err(CodecError::PortId(_))
    ));
}

#[test]
fn a_bad_channel_is_reported() {
    let bytes = stored("ab", [0; 4], "transfer", "channel-07");
    let mut reader: &[u8] = &bytes;
    match PGFIbcTarget::deserialize_reader(&mut reader) {
        Err(CodecError::ChannelId(message)) => assert_eq!(
            message,
            "Error decoding channel ID: identifier prefix `channel-07` is invalid"
        ),
        other => panic!("{:?}", other),
    }
    assert!(reader.is_empty());
}

#[test]
fn identifiers_can_be_decoded_alone() {
    assert_eq!(
        PGFIbcTarget::decode_port_id("transfer".to_string()).unwrap().to_string(),
        "transfer"
    );
    match PGFIbcTarget::decode_port_id("p".to_string()) {
        Err(CodecError::PortId(message)) => assert_eq!(
            message,
            "Error decoding port ID: identifier `p` has invalid length; must be between \
             `2` and `128` characters"
        ),
        other => panic!("{:?}", other),
    }
    assert_eq!(
        PGFIbcTarget::decode_channel_id("channel-0".to_string()).unwrap().to_string(),
        "channel-0"
    );
    match PGFIbcTarget::decode_channel_id("channel".to_string()) {
        Err(CodecError::ChannelId(message)) => assert_eq!(
            message,
            "Error decoding channel ID: identifier `channel` has invalid length; must be \
             between `8` and `64` characters"
        ),
        other => panic!("{:?}", other),
    }
}

#[test]
fn the_schema_lists_the_fields_in_stored_order() {
    let mut definitions = BTreeMap::new();
    definitions.insert("u8".to_string(), Definition::Primitive(1));
    definitions.insert("Target".to_string(), Definition::Primitive(2));
    PGFIbcTarget::add_definitions_recursively("Target".to_string(), &mut definitions);
    let fields = vec![
        ("target".to_string(), "String".to_string()),
        ("amount".to_string(), "Amount".to_string()),
        ("port_id".to_string(), "String".to_string()),
        ("channel_id".to_string(), "String".to_string()),
    ];
    assert_eq!(definitions.len(), 2);
    assert_eq!(definitions["u8"], Definition::Primitive(1));
    assert_eq!(
        definitions["Target"],
        Definition::Struct { fields: Fields::NamedFields(fields) }
    );
}

#[test]
fn the_schema_describes_a_new_name() {
    let mut definitions = BTreeMap::new();
    PGFIbcTarget::add_definitions_recursively("Target".to_string(), &mut definitions);
    assert!(definitions.contains_key("Target"));
    let once = definitions.clone();
    PGFIbcTarget::add_definitions_recursively("Target".to_string(), &mut definitions);
    assert_eq!(definitions, once);
}
