use szse_binary_rs::{ExecType, ParseError, TICK_TRADE_BODY_LEN, TickTrade};

fn sample_tick_trade_buf() -> Vec<u8> {
    let mut buf = vec![0u8; TICK_TRADE_BODY_LEN];
    buf[0..2].copy_from_slice(&2011u16.to_be_bytes());
    buf[2..10].copy_from_slice(&1i64.to_be_bytes());
    buf[10..13].copy_from_slice(b"011");
    buf[13..21].copy_from_slice(&100i64.to_be_bytes());
    buf[21..29].copy_from_slice(&200i64.to_be_bytes());
    buf[29..37].copy_from_slice(b"000001  ");
    buf[37..41].copy_from_slice(b"102 ");
    buf[41..49].copy_from_slice(&186_400i64.to_be_bytes());
    buf[49..57].copy_from_slice(&100_000i64.to_be_bytes());
    buf[57] = b'F';
    buf[58..66].copy_from_slice(&20_250_512_093_000_000i64.to_be_bytes());
    buf
}

#[test]
fn parses_all_fields_at_correct_offsets() {
    let buf = sample_tick_trade_buf();
    let t = TickTrade::parse(&buf).unwrap();
    assert_eq!(t.channel_no, 2011);
    assert_eq!(t.appl_seq_num, 1);
    assert_eq!(t.md_stream_id_str(), "011");
    assert_eq!(t.bid_appl_seq_num, 100);
    assert_eq!(t.offer_appl_seq_num, 200);
    assert_eq!(t.security_id_str(), "000001");
    // the `N13(4)` price and `N15(2)` quantity scales
    assert_eq!(t.last_px as f64 / 10_000.0, 18.6400);
    assert_eq!(t.last_qty as f64 / 100.0, 1000.0);
    assert_eq!(t.exec_type, ExecType::Trade);
    // regression guard: transact_time must come from [58,66), not [57,65)
    assert_eq!(t.transact_time, 20_250_512_093_000_000);
}

#[test]
fn tick_trade_rejects_short_buffer() {
    let buf = vec![0u8; TICK_TRADE_BODY_LEN - 1];
    assert!(matches!(
        TickTrade::parse(&buf),
        Err(ParseError::BufferTooShort { .. })
    ));
}

#[test]
fn rejects_invalid_exec_type() {
    let mut buf = sample_tick_trade_buf();
    buf[57] = b'Z';
    assert_eq!(
        TickTrade::parse(&buf),
        Err(ParseError::InvalidEnum {
            field: "ExecType",
            value: b'Z'
        })
    );
}

#[test]
fn tick_trade_ignores_trailing_extension() {
    let buf = sample_tick_trade_buf();
    let plain = TickTrade::parse(&buf).unwrap();
    let mut longer = buf.clone();
    longer.extend_from_slice(&[0xAB; 12]);
    assert_eq!(TickTrade::parse(&longer).unwrap(), plain);
}

#[test]
fn tick_trade_negative_and_extreme_values() {
    let mut buf = sample_tick_trade_buf();
    buf[41..49].copy_from_slice(&i64::MIN.to_be_bytes());
    buf[49..57].copy_from_slice(&(-1i64).to_be_bytes());
    buf[2..10].copy_from_slice(&i64::MAX.to_be_bytes());
    buf[0..2].copy_from_slice(&u16::MAX.to_be_bytes());
    buf[57] = b'4';
    let t = TickTrade::parse(&buf).unwrap();
    assert_eq!(t.last_px, i64::MIN);
    assert_eq!(t.last_qty, -1);
    assert_eq!(t.appl_seq_num, i64::MAX);
    assert_eq!(t.channel_no, u16::MAX);
    assert_eq!(t.exec_type, ExecType::Cancelled);
    assert_eq!(
        TickTrade::parse(&buf[..3]),
        Err(ParseError::BufferTooShort { needed: 66, got: 3 })
    );
}
