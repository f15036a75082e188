use argon2::password_hash::{PasswordHasher, SaltString};
use argon2::{Algorithm, Argon2, Params, Version};
use auth_core::error::AuthError;
use auth_core::password::{
    hash_password, hash_with_salt, lanes_in_range, verify_password, MAX_LANES, MIN_SALT_LEN,
    SALT_LEN,
};

#[test]
fn hash_verifies_against_its_password() {
    for password in ["pw1", "", "correct horse battery staple", "p\u{e4}ssw\u{f6}rd"] {
        let record = hash_password(password).unwrap();
        assert!(verify_password(password, &record));
    }
}

#[test]
fn hash_does_not_verify_against_another_password() {
    let record = hash_password("pw1").unwrap();
    assert!(!verify_password("pw2", &record));
    assert!(!verify_password("", &record));
    assert!(!verify_password("pw1 ", &record));
    assert!(!verify_password("PW1", &record));
}

#[test]
fn two_hashes_of_one_password_differ_and_both_verify() {
    let first = hash_password("pw1").unwrap();
    let second = hash_password("pw1").unwrap();
    assert_ne!(first, second);
    assert!(verify_password("pw1", &first));
    assert!(verify_password("pw1", &second));
}

#[test]
fn hash_is_a_self_describing_argon2_record() {
    let record = hash_password("pw1").unwrap();
    assert!(record.starts_with("$argon2id$v=19$m=19456,t=2,p=1$"));
    assert_ne!(record, "pw1");
    assert_eq!(record.matches('$').count(), 5);
}

#[test]
fn verify_is_false_on_a_malformed_record() {
    for record in ["", "pw1", "not a hash", "$argon2id$", "$argon2id$v=19$m=19456,t=2,p=1$", "$2b$12$abcdefghijklmnopqrstuv"] {
        assert!(!verify_password("pw1", record));
    }
}

#[test]
fn hash_with_salt_is_fixed_by_password_and_salt() {
    let salt = [7u8; SALT_LEN];
    let first = hash_with_salt("pw1", &salt).unwrap();
    let second = hash_with_salt("pw1", &salt).unwrap();
    assert_eq!(first, second);
    assert!(first.starts_with("$argon2id$v=19$m=19456,t=2,p=1$BwcHBwcHBwcHBwcHBwcHBw$"));
    assert!(verify_password("pw1", &first));
    assert_ne!(hash_with_salt("pw1", &[8u8; SALT_LEN]).unwrap(), first);
    assert_ne!(hash_with_salt("pw2", &salt).unwrap(), first);
}

#[test]
fn hash_with_salt_fails_on_a_salt_too_short() {
    assert_eq!(hash_with_salt("pw1", &[]), Err(AuthError::HashingFailed));
    assert_eq!(hash_with_salt("pw1", &[1]), Err(AuthError::HashingFailed));
    assert_eq!(hash_with_salt("pw1", &[1, 2]), Err(AuthError::HashingFailed));
    assert_eq!(hash_with_salt("pw1", &[1, 2, 3]), Err(AuthError::HashingFailed));
    assert_eq!(hash_with_salt("pw1", &[1; MIN_SALT_LEN - 1]), Err(AuthError::HashingFailed));
}

#[test]
fn hash_with_salt_takes_the_shortest_and_refuses_the_overlong() {
    let record = hash_with_salt("pw1", &[1; MIN_SALT_LEN]).unwrap();
    assert!(verify_password("pw1", &record));
    let longest = hash_with_salt("pw1", &[1; 48]).unwrap();
    assert!(verify_password("pw1", &longest));
    assert_eq!(hash_with_salt("pw1", &[1; 49]), Err(AuthError::HashingFailed));
    assert_eq!(hash_with_salt("pw1", &[1; 1000]), Err(AuthError::HashingFailed));
}

#[test]
fn verify_is_false_on_a_record_with_too_many_lanes() {
    let digest = "A".repeat(43);
    for lanes in ["536870912", "536870913", "1073741824", "4294967295", "16777216", "99999999999"] {
        let record = format!("$argon2id$v=19$m=65536,t=2,p={}$c29tZXNhbHRzYWx0${}", lanes, digest);
        assert!(!verify_password("pw1", &record));
        let first = format!("$argon2id$v=19$p={},m=65536,t=2$c29tZXNhbHRzYWx0${}", lanes, digest);
        assert!(!verify_password("pw1", &first));
        let bare = format!("$argon2id$p={}$c29tZXNhbHRzYWx0${}", lanes, digest);
        assert!(!verify_password("pw1", &bare));
    }
}

#[test]
fn verify_is_false_on_a_record_with_other_odd_parameters() {
    let digest = "A".repeat(43);
    for params in ["m=7,t=2,p=1", "m=8,t=0,p=1", "m=8,t=1,p=0", "m=8,t=1,p=2", "m=8,t=1", "x=1", "m=,t=1,p=1", "m=8,t=1,p=01"] {
        let record = format!("$argon2id$v=19${}$c29tZXNhbHRzYWx0${}", params, digest);
        assert!(!verify_password("pw1", &record));
    }
}

#[test]
fn verify_accepts_a_record_of_other_parameters_within_range() {
    let params = Params::new(32, 1, 4, None).unwrap();
    let hasher = Argon2::new(Algorithm::Argon2id, Version::V0x13, params);
    let salt = SaltString::encode_b64(b"somesaltsalt").unwrap();
    let record = hasher.hash_password(b"pw1", &salt).unwrap().to_string();
    assert!(record.starts_with("$argon2id$v=19$m=32,t=1,p=4$c29tZXNhbHRzYWx0$"));
    assert!(lanes_in_range(record.as_bytes()));
    assert!(verify_password("pw1", &record));
    assert!(!verify_password("pw2", &record));
    let made = hash_password("pw1").unwrap();
    assert!(lanes_in_range(made.as_bytes()));
    assert!(verify_password("pw1", &made));
}

#[test]
fn lanes_in_range_holds_every_number_after_p_to_the_limit() {
    assert_eq!(MAX_LANES, 16777215);
    assert!(lanes_in_range(b""));
    assert!(lanes_in_range(b"p"));
    assert!(lanes_in_range(b"p="));
    assert!(lanes_in_range(b"p=1"));
    assert!(lanes_in_range(b"$argon2id$v=19$m=19456,t=2,p=1$salt$hash"));
    assert!(lanes_in_range(b"p=16777215"));
    assert!(lanes_in_range(b"p=0016777215"));
    assert!(lanes_in_range(b"m=4294967295,t=4294967295,p=16777215"));
    assert!(lanes_in_range(b"p=x99999999"));
    assert!(lanes_in_range(b"P=99999999"));
    assert!(lanes_in_range(b"p =99999999"));
    assert!(!lanes_in_range(b"p=16777216"));
    assert!(!lanes_in_range(b"p=536870912"));
    assert!(!lanes_in_range(b"p=99999999999999999999999999999999999999"));
    assert!(!lanes_in_range(b"p=1,p=16777216"));
    assert!(!lanes_in_range(b"p=16777216,p=1"));
    assert!(!lanes_in_range(b"xp=16777216"));
    assert!(!lanes_in_range(b"$argon2id$v=19$m=65536,t=2,p=536870912$c29tZXNhbHRzYWx0$AAAA"));
    assert!(!lanes_in_range(b"pp=16777216x"));
}

#[test]
fn records_under_different_salts_differ_and_name_their_salt() {
    let first = hash_with_salt("same", &[1u8; SALT_LEN]).unwrap();
    let second = hash_with_salt("same", &[2u8; SALT_LEN]).unwrap();
    assert_ne!(first, second);
    assert!(first.contains("$AQEBAQEBAQEBAQEBAQEBAQ$"));
    assert!(second.contains("$AgICAgICAgICAgICAgICAg$"));
    assert!(verify_password("same", &first));
    assert!(verify_password("same", &second));
}
