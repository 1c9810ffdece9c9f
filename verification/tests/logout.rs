use szse_binary_rs::{LOGOUT_BODY_LEN, Logout, ParseError, SessionStatus};

#[test]
fn test_logout_parse() {
    let mut buf = vec![b' '; LOGOUT_BODY_LEN];
    buf[0..4].copy_from_slice(&5i32.to_be_bytes());
    let msg = b"Invalid username or password";
    buf[4..4 + msg.len()].copy_from_slice(msg);

    let logout = Logout::parse(&buf).unwrap();
    assert_eq!(logout.session_status, 5);
    assert_eq!(logout.status(), SessionStatus::InvalidUserOrPassword);
    assert_eq!(logout.text_str(), "Invalid username or password");
}

#[test]
fn logout_rejects_short_buffer() {
    assert!(matches!(
        Logout::parse(&[0u8; LOGOUT_BODY_LEN - 1]),
        Err(ParseError::BufferTooShort { .. })
    ));
}

#[test]
fn logout_status_codes() {
    let cases = [
        (0, SessionStatus::Active),
        (1, SessionStatus::PasswordChanged),
        (2, SessionStatus::PasswordExpiring),
        (3, SessionStatus::NewPasswordNonCompliant),
        (4, SessionStatus::LogoutComplete),
        (5, SessionStatus::InvalidUserOrPassword),
        (6, SessionStatus::AccountLocked),
        (7, SessionStatus::LoginNotAllowedNow),
        (8, SessionStatus::PasswordExpired),
        (9, SessionStatus::MsgSeqNumTooLow),
        (10, SessionStatus::NextExpectedTooHigh),
        (101, SessionStatus::Other),
        (102, SessionStatus::InvalidMessage),
        (11, SessionStatus::Unknown(11)),
        (-7, SessionStatus::Unknown(-7)),
    ];
    for (code, expected) in cases {
        let mut buf = vec![b' '; LOGOUT_BODY_LEN];
        buf[0..4].copy_from_slice(&(code as i32).to_be_bytes());
        assert_eq!(Logout::parse(&buf).unwrap().status(), expected);
    }
}
