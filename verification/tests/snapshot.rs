use szse_binary_rs::{
    ParseError, SNAPSHOT_FIXED_HEADER_LEN, Snapshot, SnapshotBody, SnapshotHeader,
};

fn header_buf() -> Vec<u8> {
    let mut buf = vec![0u8; SNAPSHOT_FIXED_HEADER_LEN];
    buf[0..8].copy_from_slice(&20_250_512_093_000_000i64.to_be_bytes());
    buf[8..10].copy_from_slice(&1001u16.to_be_bytes());
    buf[10..13].copy_from_slice(b"010");
    buf[13..21].copy_from_slice(b"000001  ");
    buf[21..25].copy_from_slice(b"102 ");
    buf[25..33].copy_from_slice(b"T0      ");
    buf[33..41].copy_from_slice(&180_000i64.to_be_bytes());
    buf[41..49].copy_from_slice(&123i64.to_be_bytes());
    buf[49..57].copy_from_slice(&100_000i64.to_be_bytes());
    buf[57..65].copy_from_slice(&1_800_000i64.to_be_bytes());
    buf
}

#[test]
fn parses_header() {
    let h = SnapshotHeader::parse(&header_buf()).unwrap();
    assert_eq!(h.channel_no, 1001);
    assert_eq!(h.security_id_str(), "000001");
    assert_eq!(h.md_stream_id_str(), "010");
    assert_eq!(h.num_trades, 123);
}

#[test]
fn parses_300111_depth_with_orders() {
    let mut buf = header_buf();
    buf.extend_from_slice(&1u32.to_be_bytes()); // NoMDEntries = 1
    buf.extend_from_slice(b"0 "); // entry_type (bid), space-padded
    buf.extend_from_slice(&154_000i64.to_be_bytes()); // px
    buf.extend_from_slice(&320_000i64.to_be_bytes()); // size
    buf.extend_from_slice(&1u16.to_be_bytes()); // level
    buf.extend_from_slice(&2i64.to_be_bytes()); // numberOfOrders
    buf.extend_from_slice(&2u32.to_be_bytes()); // noOrders = 2
    buf.extend_from_slice(&100_000i64.to_be_bytes());
    buf.extend_from_slice(&220_000i64.to_be_bytes());

    let snap = Snapshot::parse(&buf, 300111).unwrap();
    match snap.body {
        SnapshotBody::Auction(entries) => {
            assert_eq!(entries.len(), 1);
            let e = &entries[0];
            assert_eq!(e.entry_type_str(), "0");
            assert_eq!(e.price, 154_000);
            assert_eq!(e.price_level, 1);
            assert_eq!(e.orders, vec![100_000, 220_000]);
        }
        other => panic!("expected Auction, got {other:?}"),
    }
}

#[test]
fn parses_309011_index() {
    let mut buf = header_buf();
    buf.extend_from_slice(&1u32.to_be_bytes());
    buf.extend_from_slice(b"3 "); // current index, space-padded
    buf.extend_from_slice(&3_456_789_000i64.to_be_bytes());

    let snap = Snapshot::parse(&buf, 309011).unwrap();
    match snap.body {
        SnapshotBody::Index(e) => {
            assert_eq!(e.len(), 1);
            assert_eq!(e[0].entry_type_str(), "3");
            assert_eq!(e[0].price, 3_456_789_000);
            assert_eq!(e[0].size, 0);
        }
        other => panic!("expected Index, got {other:?}"),
    }
}

#[test]
fn parses_309111_volume_stat() {
    let mut buf = header_buf();
    buf.extend_from_slice(&500u32.to_be_bytes());
    let snap = Snapshot::parse(&buf, 309111).unwrap();
    assert_eq!(snap.body, SnapshotBody::VolumeStat { stock_num: 500 });
}

#[test]
fn truncated_orders_tail_is_rejected() {
    let mut buf = header_buf();
    buf.extend_from_slice(&1u32.to_be_bytes());
    buf.extend_from_slice(b"0 ");
    buf.extend_from_slice(&154_000i64.to_be_bytes());
    buf.extend_from_slice(&320_000i64.to_be_bytes());
    buf.extend_from_slice(&1u16.to_be_bytes());
    buf.extend_from_slice(&2i64.to_be_bytes());
    buf.extend_from_slice(&2u32.to_be_bytes()); // claims 2 orders
    buf.extend_from_slice(&100_000i64.to_be_bytes()); // but only 1 present
    assert!(matches!(
        Snapshot::parse(&buf, 300111),
        Err(ParseError::BufferTooShort { .. })
    ));
}

#[test]
fn truncated_orders_tail_reports_needed_length() {
    let mut ext = Vec::new();
    ext.extend_from_slice(&1u32.to_be_bytes());
    ext.extend_from_slice(b"1 ");
    ext.extend_from_slice(&[0u8; 26]);
    ext.extend_from_slice(&2u32.to_be_bytes());
    ext.extend_from_slice(&[0u8; 8]);
    let mut buf = header_buf();
    buf.extend_from_slice(&ext);
    // entry at 4, fixed part ends at 36, two orders end at 52; 44 bytes present
    assert_eq!(
        Snapshot::parse(&buf, 300111),
        Err(ParseError::BufferTooShort { needed: 52, got: 44 })
    );
}

#[test]
fn truncated_depth_fixed_part_reports_needed_length() {
    let mut buf = header_buf();
    buf.extend_from_slice(&3u32.to_be_bytes());
    buf.extend_from_slice(&[0u8; 10]);
    assert_eq!(
        Snapshot::parse(&buf, 300111),
        Err(ParseError::BufferTooShort { needed: 36, got: 14 })
    );
}

#[test]
fn depth_entries_follow_each_other() {
    let mut buf = header_buf();
    buf.extend_from_slice(&2u32.to_be_bytes());
    for (px, n) in [(11i64, 1u32), (-22i64, 0u32)] {
        buf.extend_from_slice(b"1 ");
        buf.extend_from_slice(&px.to_be_bytes());
        buf.extend_from_slice(&5i64.to_be_bytes());
        buf.extend_from_slice(&3u16.to_be_bytes());
        buf.extend_from_slice(&0i64.to_be_bytes());
        buf.extend_from_slice(&n.to_be_bytes());
        for q in 0..n {
            buf.extend_from_slice(&(q as i64 + 77).to_be_bytes());
        }
    }
    match Snapshot::parse(&buf, 300111).unwrap().body {
        SnapshotBody::Auction(e) => {
            assert_eq!(e.len(), 2);
            assert_eq!(e[0].price, 11);
            assert_eq!(e[0].orders, vec![77]);
            assert_eq!(e[1].price, -22);
            assert_eq!(e[1].price_level, 3);
            assert!(e[1].orders.is_empty());
        }
        other => panic!("expected Auction, got {other:?}"),
    }
}

#[test]
fn parses_after_hours_entries_with_size() {
    let mut buf = header_buf();
    buf.extend_from_slice(&2u32.to_be_bytes());
    for (px, qty) in [(100i64, 200i64), (300i64, 400i64)] {
        buf.extend_from_slice(b"x1");
        buf.extend_from_slice(&px.to_be_bytes());
        buf.extend_from_slice(&qty.to_be_bytes());
    }
    for msg_type in [300611, 303711] {
        match Snapshot::parse(&buf, msg_type).unwrap().body {
            SnapshotBody::AfterHours(e) => {
                assert_eq!(e.len(), 2);
                assert_eq!(e[0].entry_type_str(), "x1");
                assert_eq!(e[1].price, 300);
                assert_eq!(e[1].size, 400);
                assert_eq!(e[1].price_level, 0);
                assert_eq!(e[1].number_of_orders, 0);
            }
            other => panic!("expected AfterHours, got {other:?}"),
        }
    }
}

#[test]
fn truncated_simple_entries_name_first_missing_end() {
    let mut buf = header_buf();
    buf.extend_from_slice(&3u32.to_be_bytes());
    buf.extend_from_slice(&[0u8; 18 + 5]);
    // first entry ends at 22, the second would end at 40; 27 bytes present
    assert_eq!(
        Snapshot::parse(&buf, 300611),
        Err(ParseError::BufferTooShort { needed: 40, got: 27 })
    );
    let mut buf = header_buf();
    buf.extend_from_slice(&2u32.to_be_bytes());
    buf.extend_from_slice(&[0u8; 9]);
    assert_eq!(
        Snapshot::parse(&buf, 309011),
        Err(ParseError::BufferTooShort { needed: 14, got: 13 })
    );
}

#[test]
fn snapshot_errors() {
    assert_eq!(
        Snapshot::parse(&header_buf()[..64], 300111),
        Err(ParseError::BufferTooShort { needed: 65, got: 64 })
    );
    assert_eq!(
        Snapshot::parse(&header_buf(), 309111),
        Err(ParseError::BufferTooShort { needed: 4, got: 0 })
    );
    assert_eq!(
        Snapshot::parse(&header_buf(), 300112),
        Err(ParseError::UnknownMsgType(300112))
    );
    let h = SnapshotHeader::parse(&header_buf()).unwrap();
    assert_eq!(h.trading_phase_code_str(), "T0");
    assert_eq!(h.orig_time, 20_250_512_093_000_000);
}
