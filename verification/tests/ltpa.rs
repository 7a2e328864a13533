use base64::engine::general_purpose::STANDARD;
use base64::Engine as _;
use hkmu_ole_attendance::ltpa::{parse_ltpa_expiry, TokenExpiry};

fn token_with(issue: u32, expiry: u32) -> String {
    let mut raw = vec![0x00, 0x01, 0x02, 0x03];
    raw.extend_from_slice(format!("{issue:08X}").as_bytes());
    raw.extend_from_slice(format!("{expiry:08X}").as_bytes());
    raw.extend_from_slice(b"CN=s1234567/OU=OUHKStudent/O=ouhk");
    raw.extend_from_slice(&[0xA1, 0xEE, 0xFA, 0x80]);
    STANDARD.encode(raw)
}

#[test]
fn decodes_the_timestamps_from_a_live_shaped_token() {
    let issue = 0x6AB1_15AC_u32;
    let expiry = 0x6AB1_4DEC_u32;
    let encoded = token_with(issue, expiry);
    let parsed = parse_ltpa_expiry(&encoded).expect("well-formed token");
    assert_eq!(parsed.issued_at, i64::from(issue));
    assert_eq!(parsed.expires_at, i64::from(expiry));
    assert_eq!(parsed.expires_at - parsed.issued_at, 14_400);
}

#[test]
fn reports_the_remaining_lifetime() {
    let parsed = TokenExpiry { issued_at: 1_000, expires_at: 2_000 };
    assert_eq!(parsed.remaining_secs(1_000), 1_000);
    assert_eq!(parsed.remaining_secs(1_500), 500);
    assert_eq!(parsed.remaining_secs(2_000), 0);
    assert_eq!(parsed.remaining_secs(9_999), 0);
}

#[test]
fn detects_expiry_inclusively() {
    let parsed = TokenExpiry { issued_at: 1_000, expires_at: 2_000 };
    assert!(!parsed.is_expired(1_999));
    assert!(parsed.is_expired(2_000));
    assert!(parsed.is_expired(2_001));
}

#[test]
fn rejects_values_that_are_not_ltpa_tokens() {
    let wrong_shape = STANDARD.encode(b"hello world, definitely not a token");
    assert!(parse_ltpa_expiry("not-base64!!").is_none());
    assert!(parse_ltpa_expiry("").is_none());
    assert!(parse_ltpa_expiry(&wrong_shape).is_none());
}

#[test]
fn rejects_a_token_whose_expiry_precedes_its_issue_time() {
    let encoded = token_with(2_000, 1_000);
    assert!(parse_ltpa_expiry(&encoded).is_none());
}

#[test]
fn rejects_non_hex_timestamps() {
    let mut raw = vec![0x00, 0x01, 0x02, 0x03];
    raw.extend_from_slice(b"ZZZZZZZZ");
    raw.extend_from_slice(b"6AB14DEC");
    let encoded = STANDARD.encode(raw);
    assert!(parse_ltpa_expiry(&encoded).is_none());
}

#[test]
fn reads_lower_case_hex_timestamps() {
    let mut raw = vec![0x00, 0x01, 0x02, 0x03];
    raw.extend_from_slice(b"6ab115ac");
    raw.extend_from_slice(b"6ab14dec");
    let parsed = parse_ltpa_expiry(&STANDARD.encode(raw)).expect("lower-case hex parses");
    assert_eq!(parsed.issued_at, 0x6AB1_15AC);
    assert_eq!(parsed.expires_at, 0x6AB1_4DEC);
}

#[test]
fn tolerates_surrounding_whitespace_in_a_token() {
    let encoded = format!("  {}  ", token_with(100, 200));
    let parsed = parse_ltpa_expiry(&encoded).expect("trimmed token parses");
    assert_eq!((parsed.issued_at, parsed.expires_at), (100, 200));
}
