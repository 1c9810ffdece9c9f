use szse_binary_rs::{
    BUSINESS_REJECT_BODY_LEN, BusinessReject, CHANNEL_HEARTBEAT_BODY_LEN, ChannelHeartbeat,
    ParseError, RESEND_BODY_LEN, Resend,
};

#[test]
fn parses_channel_heartbeat() {
    let mut buf = vec![0u8; CHANNEL_HEARTBEAT_BODY_LEN];
    buf[0..2].copy_from_slice(&2011u16.to_be_bytes());
    buf[2..10].copy_from_slice(&98765i64.to_be_bytes());
    buf[10..12].copy_from_slice(&1u16.to_be_bytes());
    let hb = ChannelHeartbeat::parse(&buf).unwrap();
    assert_eq!(hb.channel_no, 2011);
    assert_eq!(hb.appl_last_seq_num, 98765);
    assert!(hb.is_end_of_channel());
}

#[test]
fn parses_resend() {
    let mut buf = vec![b' '; RESEND_BODY_LEN];
    buf[0] = 1;
    buf[1..3].copy_from_slice(&2011u16.to_be_bytes());
    buf[3..11].copy_from_slice(&10i64.to_be_bytes());
    buf[11..19].copy_from_slice(&20i64.to_be_bytes());
    buf[27] = 1;
    let r = Resend::parse(&buf).unwrap();
    assert_eq!(r.resend_type, 1);
    assert_eq!(r.appl_beg_seq_num, 10);
    assert_eq!(r.appl_end_seq_num, 20);
    assert_eq!(r.resend_status, 1);
}

#[test]
fn parses_business_reject() {
    let mut buf = vec![b' '; BUSINESS_REJECT_BODY_LEN];
    buf[0..8].copy_from_slice(&7i64.to_be_bytes());
    buf[8..12].copy_from_slice(&390094u32.to_be_bytes());
    buf[22..24].copy_from_slice(&3u16.to_be_bytes());
    let msg = b"no permission";
    buf[24..24 + msg.len()].copy_from_slice(msg);
    let br = BusinessReject::parse(&buf).unwrap();
    assert_eq!(br.ref_seq_num, 7);
    assert_eq!(br.ref_msg_type, 390094);
    assert_eq!(br.business_reject_reason, 3);
    assert_eq!(br.business_reject_text_str(), "no permission");
}

#[test]
fn resend_text_fields_and_negative_sequence() {
    let mut buf = vec![b' '; RESEND_BODY_LEN];
    buf[3..11].copy_from_slice(&(-2i64).to_be_bytes());
    buf[19..23].copy_from_slice(b"N123");
    buf[28..34].copy_from_slice(b"denied");
    let r = Resend::parse(&buf).unwrap();
    assert_eq!(r.appl_beg_seq_num, -2);
    assert_eq!(r.news_id_str(), "N123");
    assert_eq!(r.reject_text_str(), "denied");
    assert_eq!(r.channel_no, 0x2020);
}

#[test]
fn business_reject_ref_id_and_short_buffer() {
    let mut buf = vec![b' '; BUSINESS_REJECT_BODY_LEN];
    buf[12..17].copy_from_slice(b"ID-42");
    let br = BusinessReject::parse(&buf).unwrap();
    assert_eq!(br.business_reject_ref_id_str(), "ID-42");
    assert_eq!(
        BusinessReject::parse(&buf[..73]),
        Err(ParseError::BufferTooShort { needed: 74, got: 73 })
    );
    assert_eq!(
        ChannelHeartbeat::parse(&[0u8; 11]),
        Err(ParseError::BufferTooShort { needed: 12, got: 11 })
    );
    assert_eq!(
        Resend::parse(&[0u8; 43]),
        Err(ParseError::BufferTooShort { needed: 44, got: 43 })
    );
}
