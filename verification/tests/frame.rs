use szse_binary_rs::{
    ExecType, Message, OrdType, OrderExtension, ParseError, TICK_ORDER_BODY_LEN,
    TICK_TRADE_BODY_LEN, checksum, parse_frame, verify_checksum,
};

fn framed(msg_type: u32, body: &[u8]) -> Vec<u8> {
    let mut f = Vec::new();
    f.extend_from_slice(&msg_type.to_be_bytes());
    f.extend_from_slice(&(body.len() as u32).to_be_bytes());
    f.extend_from_slice(body);
    f
}

#[test]
fn dispatches_heartbeat() {
    let frame = framed(3, &[]);
    assert_eq!(parse_frame(&frame).unwrap(), Message::Heartbeat);
}

#[test]
fn dispatches_tick_trade() {
    let mut body = vec![0u8; TICK_TRADE_BODY_LEN];
    body[0..2].copy_from_slice(&2011u16.to_be_bytes());
    body[57] = b'F';
    let frame = framed(300191, &body);
    match parse_frame(&frame).unwrap() {
        Message::TickTrade(t) => assert_eq!(t.channel_no, 2011),
        other => panic!("expected TickTrade, got {other:?}"),
    }
}

#[test]
fn unknown_type_errors() {
    let frame = framed(424242, &[]);
    assert_eq!(parse_frame(&frame), Err(ParseError::UnknownMsgType(424242)));
}

#[test]
fn checksum_round_trips() {
    let mut frame = framed(3, &[]);
    let cks = checksum(&frame);
    frame.extend_from_slice(&cks.to_be_bytes());
    assert!(verify_checksum(&frame).is_ok());

    // corrupt the body type and the checksum must fail
    frame[0] ^= 0xFF;
    assert!(matches!(
        verify_checksum(&frame),
        Err(ParseError::ChecksumMismatch { .. })
    ));
}

#[test]
fn frame_shorter_than_header_is_refused() {
    assert_eq!(
        parse_frame(&[0u8, 0, 0]),
        Err(ParseError::BufferTooShort { needed: 8, got: 3 })
    );
}

#[test]
fn checksum_tail_verifies_on_a_tick_trade_frame() {
    let mut body = vec![7u8; TICK_TRADE_BODY_LEN];
    body[57] = b'4';
    let mut frame = framed(300591, &body);
    let cks = checksum(&frame);
    frame.extend_from_slice(&cks.to_be_bytes());
    assert_eq!(verify_checksum(&frame), Ok(()));
}

#[test]
fn every_single_byte_change_is_detected() {
    let body: Vec<u8> = (0u8..20).collect();
    let mut frame = framed(390094, &body);
    let cks = checksum(&frame);
    frame.extend_from_slice(&cks.to_be_bytes());
    let split = frame.len() - 4;
    for i in 0..split {
        let mut bad = frame.clone();
        bad[i] = bad[i].wrapping_add(1);
        assert!(matches!(
            verify_checksum(&bad),
            Err(ParseError::ChecksumMismatch { .. })
        ));
    }
}

#[test]
fn checksum_mismatch_reports_both_values() {
    let mut frame = framed(3, &[]);
    // sum of header bytes: 3 = checksum 3; declare 4 instead
    frame.extend_from_slice(&4u32.to_be_bytes());
    assert_eq!(
        verify_checksum(&frame),
        Err(ParseError::ChecksumMismatch { declared: 4, computed: 3 })
    );
}

#[test]
fn verify_checksum_needs_header_and_tail() {
    assert_eq!(
        verify_checksum(&[0u8; 11]),
        Err(ParseError::BufferTooShort { needed: 12, got: 11 })
    );
}

#[test]
fn trailing_checksum_does_not_change_the_message() {
    let mut body = vec![0u8; TICK_ORDER_BODY_LEN];
    body[41] = b'2';
    body.push(b'U');
    let frame = framed(300192, &body);
    let mut with_tail = frame.clone();
    with_tail.extend_from_slice(&checksum(&frame).to_be_bytes());
    let a = parse_frame(&frame).unwrap();
    let b = parse_frame(&with_tail).unwrap();
    assert_eq!(a, b);
    match a {
        Message::TickOrder { extension, .. } => assert_eq!(
            extension,
            Some(OrderExtension::Auction { ord_type: OrdType::BestOwn })
        ),
        other => panic!("expected TickOrder, got {other:?}"),
    }
}

#[test]
fn body_extends_to_end_when_declared_length_is_too_large() {
    let mut body = vec![0u8; TICK_TRADE_BODY_LEN];
    body[57] = b'4';
    let mut frame = framed(300291, &body);
    frame[4..8].copy_from_slice(&1000u32.to_be_bytes());
    match parse_frame(&frame).unwrap() {
        Message::TickTrade(t) => assert_eq!(t.exec_type, ExecType::Cancelled),
        other => panic!("expected TickTrade, got {other:?}"),
    }
}

#[test]
fn short_declared_length_cuts_the_body() {
    let body = vec![0u8; TICK_TRADE_BODY_LEN];
    let mut frame = framed(300391, &body);
    frame[4..8].copy_from_slice(&10u32.to_be_bytes());
    assert_eq!(
        parse_frame(&frame),
        Err(ParseError::BufferTooShort { needed: 66, got: 10 })
    );
}

#[test]
fn tick_order_type_without_known_extension_is_unknown() {
    let mut body = vec![0u8; TICK_ORDER_BODY_LEN];
    body[41] = b'1';
    let frame = framed(300392, &body);
    assert_eq!(parse_frame(&frame), Err(ParseError::UnknownMsgType(300392)));
}

#[test]
fn dispatches_session_messages() {
    let mut logout = vec![b' '; 204];
    logout[0..4].copy_from_slice(&4i32.to_be_bytes());
    match parse_frame(&framed(2, &logout)).unwrap() {
        Message::Logout(l) => assert_eq!(l.session_status, 4),
        other => panic!("expected Logout, got {other:?}"),
    }
    let hb = [0u8, 5, 0, 0, 0, 0, 0, 0, 0, 9, 0, 0];
    match parse_frame(&framed(390095, &hb)).unwrap() {
        Message::ChannelHeartbeat(h) => {
            assert_eq!(h.channel_no, 5);
            assert_eq!(h.appl_last_seq_num, 9);
            assert!(!h.is_end_of_channel());
        }
        other => panic!("expected ChannelHeartbeat, got {other:?}"),
    }
    assert!(matches!(
        parse_frame(&framed(8, &[0u8; 74])),
        Ok(Message::BusinessReject(_))
    ));
    assert!(matches!(
        parse_frame(&framed(1, &[0u8; 91])),
        Err(ParseError::BufferTooShort { needed: 92, got: 91 })
    ));
}
