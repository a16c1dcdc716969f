use namada_governance::identifiers::{ChannelId, PortId};

#[test]
fn ports() {
    for id in ["transfer", "p1", "icahost", "._+-#[]<>", "\u{e9}\u{df}", "a+b"] {
        assert_eq!(PortId::parse(id).unwrap().to_string(), id);
    }
    assert!(PortId::parse(&"x".repeat(128)).is_ok());
}

#[test]
fn refused_ports() {
    assert_eq!(
        PortId::parse("").unwrap_err(),
        "identifier `` has invalid length; must be between `2` and `128` characters"
    );
    assert!(PortId::parse(&"x".repeat(129)).is_err());
    for id in ["a b", "a/b", "a@b", "\u{2192}\u{2192}", "a\u{7f}"] {
        assert_eq!(
            PortId::parse(id).unwrap_err(),
            format!(
                "identifier `{}` must only contain alphanumeric characters or `.`, `_`, `+`, \
                 `-`, `#`, - `[`, `]`, `<`, `>`",
                id
            )
        );
    }
}

#[test]
fn lengths_are_counted_in_bytes() {
    assert!(PortId::parse(&"\u{e9}".repeat(64)).is_ok());
    assert!(PortId::parse(&"\u{e9}".repeat(65)).is_err());
    assert!(PortId::parse("\u{e9}").is_ok());
}

#[test]
fn characters_are_looked_at_before_length() {
    assert_eq!(
        PortId::parse("/").unwrap_err(),
        "identifier `/` must only contain alphanumeric characters or `.`, `_`, `+`, `-`, `#`, \
         - `[`, `]`, `<`, `>`"
    );
}

#[test]
fn ascii_letters_digits_and_signs() {
    for code in 0u8..128 {
        let c = code as char;
        let id: String = [c, c].iter().collect();
        let expected = c.is_ascii_alphanumeric() || "._+-#[]<>".contains(c);
        assert_eq!(PortId::parse(&id).is_ok(), expected, "{:?}", c);
    }
}

#[test]
fn channels() {
    for id in [
        "channel-0",
        "channel-10",
        "channel-18446744073709551615",
        "channel-+5",
        "channel-+05",
    ] {
        assert_eq!(ChannelId::parse(id).unwrap().to_string(), id);
    }
}

#[test]
fn refused_channels() {
    for id in [
        "channel-",
        "channel-00",
        "channel-01",
        "channel-18446744073709551616",
        "channel--1",
        "channel-1a",
        "channels-1",
        "connection-1",
        "channel-+",
    ] {
        assert_eq!(
            ChannelId::parse(id).unwrap_err(),
            format!("identifier prefix `{}` is invalid", id)
        );
    }
    assert_eq!(
        ChannelId::parse("channel").unwrap_err(),
        "identifier `channel` has invalid length; must be between `8` and `64` characters"
    );
    assert_eq!(
        ChannelId::parse("channel/1").unwrap_err(),
        "identifier `channel/1` must only contain alphanumeric characters or `.`, `_`, `+`, \
         `-`, `#`, - `[`, `]`, `<`, `>`"
    );
}
