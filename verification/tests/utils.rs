use szse_binary_rs::{ParseError, checksum, require_len, trimmed_str};

#[test]
fn require_len_reports_shortfall() {
    assert_eq!(
        require_len(&[0u8; 3], 8),
        Err(ParseError::BufferTooShort { needed: 8, got: 3 })
    );
    assert!(require_len(&[0u8; 8], 8).is_ok());
}

#[test]
fn checksum_matches_reference() {
    // sum = 1+2+3 = 6, 6 % 256 = 6
    assert_eq!(checksum(&[1, 2, 3]), 6);
    // wraps mod 256: 255 + 255 = 510, 510 % 256 = 254
    assert_eq!(checksum(&[255, 255]), 254);
}

#[test]
fn trimmed_str_strips_trailing_spaces() {
    assert_eq!(trimmed_str(b"000001  "), "000001");
    assert_eq!(trimmed_str(b"   "), "");
}

#[test]
fn checksum_of_empty_and_long_input() {
    assert_eq!(checksum(&[]), 0);
    let big = vec![255u8; 100_000];
    assert_eq!(checksum(&big), (255u64 * 100_000 % 256) as u32);
}

#[test]
fn trimmed_str_keeps_leading_and_inner_space() {
    assert_eq!(trimmed_str(b"  a b \t\r\n"), "  a b");
    // U+3000 (ideographic space) is whitespace too
    assert_eq!(trimmed_str("x\u{3000}".as_bytes()), "x");
    // invalid UTF-8 gives the empty text
    assert_eq!(trimmed_str(&[0x41, 0xFF, 0x20]), "");
    assert_eq!(trimmed_str("深圳 ".as_bytes()), "深圳");
    // trimming is idempotent
    let once = trimmed_str(b"ab  ");
    assert_eq!(trimmed_str(once.as_bytes()), once);
}
