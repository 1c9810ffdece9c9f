use szse_binary_rs::{OrdType, OrderExtension, ParseError, Side, TICK_ORDER_BODY_LEN, TickOrder};

fn base_buf() -> Vec<u8> {
    let mut buf = vec![0u8; TICK_ORDER_BODY_LEN];
    buf[0..2].copy_from_slice(&2011u16.to_be_bytes());
    buf[2..10].copy_from_slice(&42i64.to_be_bytes());
    buf[10..13].copy_from_slice(b"011");
    buf[13..21].copy_from_slice(b"000001  ");
    buf[21..25].copy_from_slice(b"102 ");
    buf[25..33].copy_from_slice(&186_400i64.to_be_bytes());
    buf[33..41].copy_from_slice(&100_000i64.to_be_bytes());
    buf[41] = b'1';
    buf[42..50].copy_from_slice(&20_250_512_093_000_000i64.to_be_bytes());
    buf
}

#[test]
fn parses_base_body() {
    let o = TickOrder::parse(&base_buf()).unwrap();
    assert_eq!(o.channel_no, 2011);
    assert_eq!(o.appl_seq_num, 42);
    assert_eq!(o.side, Side::Buy);
    // the price scale `N13(4)`: the float helpers live outside the library
    assert_eq!(o.price as f64 / 10_000.0, 18.64);
    assert_eq!(o.security_id_str(), "000001");
    assert_eq!(o.transact_time, 20_250_512_093_000_000);
}

#[test]
fn parses_300192_auction_extension() {
    let mut buf = base_buf();
    buf.push(b'2'); // OrdType = Limit
    let (o, ext) = TickOrder::parse_with_ext(&buf, 300192).unwrap();
    assert_eq!(o.side, Side::Buy);
    assert_eq!(
        ext,
        Some(OrderExtension::Auction {
            ord_type: OrdType::Limit
        })
    );
}

#[test]
fn parses_300792_lending_extension() {
    let mut buf = base_buf();
    buf.extend_from_slice(&182u16.to_be_bytes());
    buf.push(1);
    let (_, ext) = TickOrder::parse_with_ext(&buf, 300792).unwrap();
    assert_eq!(
        ext,
        Some(OrderExtension::SecurityLending {
            expiration_days: 182,
            expiration_type: 1
        })
    );
}

#[test]
fn rejects_unknown_msg_type() {
    let buf = base_buf();
    assert_eq!(
        TickOrder::parse_with_ext(&buf, 999999),
        Err(ParseError::UnknownMsgType(999999))
    );
}

#[test]
fn parses_300592_negotiated_extension() {
    let mut buf = base_buf();
    let mut ext = vec![b' '; 50];
    ext[0..4].copy_from_slice(b"Q001");
    ext[8..11].copy_from_slice(b"Ann");
    ext[20..25].copy_from_slice(b"12345");
    buf.extend_from_slice(&ext);
    let (o, x) = TickOrder::parse_with_ext(&buf, 300592).unwrap();
    assert_eq!(o.md_stream_id_str(), "011");
    match x {
        Some(OrderExtension::Negotiated { confirm_id, contactor, contact_info }) => {
            assert_eq!(&confirm_id[..], &ext[0..8]);
            assert_eq!(&contactor[..], &ext[8..20]);
            assert_eq!(&contact_info[..], &ext[20..50]);
        }
        other => panic!("expected Negotiated, got {other:?}"),
    }
}

#[test]
fn extension_errors() {
    let buf = base_buf();
    assert_eq!(
        TickOrder::parse_with_ext(&buf, 300292),
        Err(ParseError::BufferTooShort { needed: 1, got: 0 })
    );
    assert_eq!(
        TickOrder::parse_with_ext(&buf, 300592),
        Err(ParseError::BufferTooShort { needed: 50, got: 0 })
    );
    let mut two = buf.clone();
    two.extend_from_slice(&[0, 1]);
    assert_eq!(
        TickOrder::parse_with_ext(&two, 300792),
        Err(ParseError::BufferTooShort { needed: 3, got: 2 })
    );
    let mut bad = buf.clone();
    bad.push(b'9');
    assert_eq!(
        TickOrder::parse_with_ext(&bad, 300192),
        Err(ParseError::InvalidEnum { field: "OrdType", value: b'9' })
    );
}

#[test]
fn base_errors_come_before_extension_errors() {
    let mut buf = base_buf();
    buf[41] = b'X';
    assert_eq!(
        TickOrder::parse_with_ext(&buf, 999999),
        Err(ParseError::InvalidEnum { field: "Side", value: b'X' })
    );
    assert_eq!(
        TickOrder::parse_with_ext(&buf[..49], 300192),
        Err(ParseError::BufferTooShort { needed: 50, got: 49 })
    );
}

#[test]
fn base_parse_ignores_extension_bytes() {
    let mut buf = base_buf();
    buf[41] = b'G';
    let plain = TickOrder::parse(&buf).unwrap();
    buf.extend_from_slice(&[9u8; 17]);
    assert_eq!(TickOrder::parse(&buf).unwrap(), plain);
    assert_eq!(plain.side, Side::Borrow);
}
