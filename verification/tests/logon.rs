use szse_binary_rs::{LOGON_BODY_LEN, Logon, ParseError};

/// Right-pad `src` with spaces into a fixed `[u8; N]`, matching how
/// string fields are padded on the wire.
fn padded<const N: usize>(src: &[u8]) -> [u8; N] {
    let mut a = [b' '; N];
    a[..src.len()].copy_from_slice(src);
    a
}

#[test]
fn test_logon_parse() {
    let mut buf = vec![0u8; LOGON_BODY_LEN];
    buf[0..20].copy_from_slice(&padded::<20>(b"TEST_SENDER"));
    buf[20..40].copy_from_slice(&padded::<20>(b"MDGW001"));
    buf[40..44].copy_from_slice(&60i32.to_be_bytes());
    buf[44..60].copy_from_slice(&padded::<16>(b"mypassword"));
    buf[60..92].copy_from_slice(&padded::<32>(b"1.00"));

    let logon = Logon::parse(&buf).unwrap();
    assert_eq!(logon.sender_comp_id_str(), "TEST_SENDER");
    assert_eq!(logon.target_comp_id_str(), "MDGW001");
    assert_eq!(logon.heart_bt_int, 60);
    assert_eq!(logon.password_str(), "mypassword");
    assert_eq!(logon.default_appl_ver_id_str(), "1.00");
}

#[test]
fn logon_rejects_short_buffer() {
    assert!(matches!(
        Logon::parse(&[0u8; LOGON_BODY_LEN - 1]),
        Err(ParseError::BufferTooShort { .. })
    ));
}

#[test]
fn logon_negative_heartbeat_and_exact_error() {
    let mut buf = vec![b' '; LOGON_BODY_LEN + 3];
    buf[40..44].copy_from_slice(&(-1i32).to_be_bytes());
    let logon = Logon::parse(&buf).unwrap();
    assert_eq!(logon.heart_bt_int, -1);
    assert_eq!(logon.sender_comp_id_str(), "");
    assert_eq!(
        Logon::parse(&buf[..10]),
        Err(ParseError::BufferTooShort { needed: 92, got: 10 })
    );
}
