use szse_binary_rs::{MsgHeader, ParseError};

#[test]
fn header_too_short() {
    let buf = [0u8; 5];
    assert_eq!(
        MsgHeader::parse(&buf),
        Err(ParseError::BufferTooShort { needed: 8, got: 5 })
    );
}

#[test]
fn header_parses_msg_type() {
    let mut buf = [0u8; 8];
    buf[0..4].copy_from_slice(&300191u32.to_be_bytes());
    buf[4..8].copy_from_slice(&66u32.to_be_bytes());
    let h = MsgHeader::parse(&buf).unwrap();
    assert_eq!(h.msg_type, 300191);
    assert_eq!(h.body_length, 66);
}

#[test]
fn header_reads_all_bytes_big_endian() {
    let buf = [0x12u8, 0x34, 0x56, 0x78, 0xFF, 0xFE, 0xFD, 0xFC, 0x99];
    let h = MsgHeader::parse(&buf).unwrap();
    assert_eq!(h.msg_type, 0x1234_5678);
    assert_eq!(h.body_length, 0xFFFE_FDFC);
}
