use szse_binary_rs::ParseError;

#[test]
fn error_messages() {
    assert_eq!(
        ParseError::BufferTooShort { needed: 8, got: 5 }.message(),
        "buffer too short: need 8 bytes, got 5"
    );
    assert_eq!(
        ParseError::UnknownMsgType(424242).message(),
        "unknown message type: 424242"
    );
    assert_eq!(
        ParseError::InvalidEnum { field: "Side", value: b'Z' }.message(),
        "invalid value 0x5a for field Side"
    );
    assert_eq!(
        ParseError::InvalidEnum { field: "OrdType", value: 0 }.message(),
        "invalid value 0x00 for field OrdType"
    );
    assert_eq!(
        ParseError::BodyLengthMismatch { declared: 10, actual: 0 }.message(),
        "body length mismatch: header says 10, layout needs 0"
    );
    assert_eq!(
        ParseError::ChecksumMismatch { declared: 4294967295, computed: 3 }.message(),
        "checksum mismatch: message has 4294967295, computed 3"
    );
}
