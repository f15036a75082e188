use auth_core::hex::{from_hex, push_hex, to_hex};
use auth_core::mac::{same_bytes, tag, TAG_LEN};

#[test]
fn to_hex_writes_two_lower_case_digits_per_byte() {
    assert_eq!(to_hex(&[0x00, 0x09, 0x0a, 0xab, 0xff]), b"00090aabff".to_vec());
}

#[test]
fn to_hex_of_nothing_is_empty() {
    assert_eq!(to_hex(&[]), Vec::<u8>::new());
}

#[test]
fn push_hex_appends_to_what_is_there() {
    let mut out = b"x=".to_vec();
    push_hex(&mut out, &[0x12, 0xef]);
    assert_eq!(out, b"x=12ef".to_vec());
}

#[test]
fn from_hex_reads_what_to_hex_wrote() {
    let bytes: Vec<u8> = (0u8..=255).collect();
    assert_eq!(from_hex(&to_hex(&bytes)), Some(bytes));
}

#[test]
fn from_hex_reads_digits() {
    assert_eq!(from_hex(b"00090aabff"), Some(vec![0x00, 0x09, 0x0a, 0xab, 0xff]));
    assert_eq!(from_hex(b""), Some(vec![]));
}

#[test]
fn from_hex_refuses_an_odd_length() {
    assert_eq!(from_hex(b"abc"), None);
    assert_eq!(from_hex(b"a"), None);
}

#[test]
fn from_hex_refuses_upper_case_and_other_bytes() {
    assert_eq!(from_hex(b"AB"), None);
    assert_eq!(from_hex(b"0g"), None);
    assert_eq!(from_hex(b"0."), None);
    assert_eq!(from_hex(b" 0"), None);
    assert_eq!(from_hex(&[0x30, 0xff]), None);
    assert_eq!(from_hex(b"0/"), None);
    assert_eq!(from_hex(b"0:"), None);
    assert_eq!(from_hex(b"0`"), None);
}

#[test]
fn same_bytes_tells_equal_from_different() {
    assert!(same_bytes(b"", b""));
    assert!(same_bytes(b"abc", b"abc"));
    assert!(!same_bytes(b"abc", b"abd"));
    assert!(!same_bytes(b"xbc", b"abc"));
    assert!(!same_bytes(b"abc", b"ab"));
    assert!(!same_bytes(b"ab", b"abc"));
    assert!(!same_bytes(&[0x00], &[0x80]));
}

#[test]
fn tag_is_the_hmac_sha256_of_the_message() {
    assert_eq!(TAG_LEN, 32);
    assert_eq!(
        to_hex(&tag(b"key", b"The quick brown fox jumps over the lazy dog")),
        b"f7bc83f430538424b13298e6aa6fb143ef4d59a14946175997479dbc2d1a3cd8".to_vec()
    );
    assert_eq!(tag(b"", b"").len(), TAG_LEN);
    assert_eq!(tag(&[7u8; 200], b"long key").len(), TAG_LEN);
    assert_ne!(tag(b"key", b"a"), tag(b"key", b"b"));
}
