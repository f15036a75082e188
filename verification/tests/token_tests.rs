use auth_core::error::AuthError;
use auth_core::token::{
    decode_claims, encode_claims, judge, seal, split, Claims, TokenCodec, TokenError,
};
use hmac::{Hmac, Mac};
use sha2::Sha256;

const KNOWN: &str = "e8030000000000006c070000000000006140782e636f6d.668ae94ad2f614b802c7aebf6734b728116424a04d87ef3ebd5018c465eefcb0";

fn claims(subject: &str, issued_at: u64, expires_at: u64) -> Claims {
    Claims { subject: subject.to_string(), issued_at, expires_at }
}

fn tag_of(key: &[u8], payload: &[u8]) -> Vec<u8> {
    let mut mac = Hmac::<Sha256>::new_from_slice(key).unwrap();
    mac.update(payload);
    mac.finalize().into_bytes().to_vec()
}

#[test]
fn issue_gives_the_known_token() {
    let codec = TokenCodec::new(b"secret");
    assert_eq!(codec.issue("a@x.com", 900, 1000), Ok(KNOWN.to_string()));
}

#[test]
fn issue_with_empty_key_and_subject() {
    let codec = TokenCodec::new(b"");
    assert_eq!(
        codec.issue("", 0, 0),
        Ok("00000000000000000000000000000000.853c7403937d8b6239569b184eb7993fc5f751aefcea28f2c863858e2d29c50b".to_string())
    );
}

#[test]
fn issue_encodes_the_subject_as_utf8() {
    let codec = TokenCodec::new(b"k");
    assert_eq!(
        codec.issue("b\u{e9}@y.com", 604800, 5),
        Ok("0500000000000000853a09000000000062c3a940792e636f6d.fe79e124d33ccbed04f645f027b8f64ec11d60ba650fff6e4c4c3df6517ea7a7".to_string())
    );
}

#[test]
fn issue_fails_where_the_expiry_does_not_fit() {
    let codec = TokenCodec::new(b"secret");
    assert_eq!(codec.issue("a@x.com", 1, u64::MAX), Err(AuthError::IssuanceFailed));
    assert_eq!(codec.issue("a@x.com", u64::MAX, 1), Err(AuthError::IssuanceFailed));
    assert!(codec.issue("a@x.com", 0, u64::MAX).is_ok());
}

#[test]
fn fresh_token_names_its_subject() {
    let codec = TokenCodec::new(b"secret");
    for subject in ["a@x.com", "", "b\u{e9}@y.com", "with.dots@and spaces", "\u{1F600}"] {
        let token = codec.issue(subject, 900, 1_700_000_000).unwrap();
        assert_eq!(
            codec.verify(&token, 1_700_000_000),
            Ok(claims(subject, 1_700_000_000, 1_700_000_900))
        );
    }
}

#[test]
fn token_expires_at_its_expiry() {
    let codec = TokenCodec::new(b"secret");
    let token = codec.issue("a@x.com", 900, 1000).unwrap();
    let valid = Ok(claims("a@x.com", 1000, 1900));
    assert_eq!(codec.verify(&token, 1000), valid);
    assert_eq!(codec.verify(&token, 1899), valid);
    assert_eq!(codec.verify(&token, 1900), Err(TokenError::Expired));
    assert_eq!(codec.verify(&token, 1901), Err(TokenError::Expired));
    assert_eq!(codec.verify(&token, u64::MAX), Err(TokenError::Expired));
    assert_eq!(codec.verify(&token, 0), valid);
}

#[test]
fn token_with_no_time_to_live_is_expired_at_once() {
    let codec = TokenCodec::new(b"secret");
    let token = codec.issue("a@x.com", 0, 1000).unwrap();
    assert_eq!(codec.verify(&token, 1000), Err(TokenError::Expired));
    assert_eq!(codec.verify(&token, 999), Ok(claims("a@x.com", 1000, 1000)));
}

#[test]
fn tampered_signature_is_invalid() {
    let codec = TokenCodec::new(b"secret");
    let dot = KNOWN.find('.').unwrap();
    for i in (dot + 1)..KNOWN.len() {
        for replacement in [b'0', b'f', b'.', b'g', b'A'] {
            let mut bytes = KNOWN.as_bytes().to_vec();
            if bytes[i] == replacement {
                continue;
            }
            bytes[i] = replacement;
            assert_eq!(codec.verify_bytes(&bytes, 1000), Err(TokenError::Invalid));
            assert_eq!(codec.verify_bytes(&bytes, 5000), Err(TokenError::Invalid));
        }
    }
}

#[test]
fn tampered_payload_is_invalid() {
    let codec = TokenCodec::new(b"secret");
    let dot = KNOWN.find('.').unwrap();
    for i in 0..dot {
        let mut bytes = KNOWN.as_bytes().to_vec();
        bytes[i] = if bytes[i] == b'0' { b'1' } else { b'0' };
        assert_eq!(codec.verify_bytes(&bytes, 1000), Err(TokenError::Invalid));
    }
}

#[test]
fn token_of_another_key_is_invalid() {
    let token = TokenCodec::new(b"secret").issue("a@x.com", 900, 1000).unwrap();
    assert_eq!(TokenCodec::new(b"Secret").verify(&token, 1000), Err(TokenError::Invalid));
    assert_eq!(TokenCodec::new(b"").verify(&token, 5000), Err(TokenError::Invalid));
}

#[test]
fn malformed_tokens_are_invalid() {
    let codec = TokenCodec::new(b"secret");
    let upper = KNOWN.to_uppercase();
    let doubled = format!("{}.", KNOWN);
    let truncated = &KNOWN[..KNOWN.len() - 1];
    let extended = format!("{}0", KNOWN);
    let no_dot = KNOWN.replace('.', "");
    for token in [
        "",
        ".",
        "abc",
        "zz.zz",
        "0011",
        "00.",
        ".00",
        "\u{e9}",
        upper.as_str(),
        doubled.as_str(),
        truncated,
        extended.as_str(),
        no_dot.as_str(),
    ] {
        assert_eq!(codec.verify(token, 1000), Err(TokenError::Invalid));
        assert_eq!(codec.verify(token, u64::MAX), Err(TokenError::Invalid));
    }
}

#[test]
fn signed_payload_without_claims_is_invalid() {
    let codec = TokenCodec::new(b"secret");
    let short = [1u8; 15];
    let token = seal(&short, &tag_of(b"secret", &short));
    assert_eq!(codec.verify_bytes(&token, 0), Err(TokenError::Invalid));
    let mut not_utf8 = encode_claims("a@x.com", 1000, 1900);
    not_utf8.push(0xff);
    let token = seal(&not_utf8, &tag_of(b"secret", &not_utf8));
    assert_eq!(codec.verify_bytes(&token, 0), Err(TokenError::Invalid));
}

#[test]
fn signed_claims_are_accepted_whoever_sealed_them() {
    let codec = TokenCodec::new(b"secret");
    let payload = encode_claims("a@x.com", 1000, 1900);
    let token = seal(&payload, &tag_of(b"secret", &payload));
    assert_eq!(token, KNOWN.as_bytes().to_vec());
    assert_eq!(codec.verify_bytes(&token, 1500), Ok(claims("a@x.com", 1000, 1900)));
}

#[test]
fn encode_claims_lays_out_times_then_subject() {
    assert_eq!(
        encode_claims("ab", 0x0102030405060708, 1),
        vec![8, 7, 6, 5, 4, 3, 2, 1, 1, 0, 0, 0, 0, 0, 0, 0, b'a', b'b']
    );
}

#[test]
fn decode_claims_reads_what_encode_claims_wrote() {
    let payload = encode_claims("b\u{e9}@y.com", 7, u64::MAX);
    assert_eq!(decode_claims(&payload), Some(claims("b\u{e9}@y.com", 7, u64::MAX)));
    assert_eq!(decode_claims(&[0u8; 16]), Some(claims("", 0, 0)));
}

#[test]
fn decode_claims_refuses_short_or_ill_encoded_bytes() {
    assert_eq!(decode_claims(&[]), None);
    assert_eq!(decode_claims(&[0u8; 15]), None);
    let mut payload = vec![0u8; 16];
    payload.push(0xc3);
    assert_eq!(decode_claims(&payload), None);
}

#[test]
fn seal_joins_payload_and_tag() {
    assert_eq!(seal(&[0xab, 0x01], &[0xff]), b"ab01.ff".to_vec());
    assert_eq!(seal(&[], &[]), b".".to_vec());
}

#[test]
fn split_finds_payload_and_signature() {
    assert_eq!(split(b"ab01.ff"), Some((vec![0xab, 0x01], 5)));
    assert_eq!(split(b"."), Some((vec![], 1)));
    assert_eq!(split(b"00.anything.at all"), Some((vec![0], 3)));
}

#[test]
fn split_refuses_what_is_no_frame() {
    assert_eq!(split(b""), None);
    assert_eq!(split(b"ab01"), None);
    assert_eq!(split(b"abc.ff"), None);
    assert_eq!(split(b"AB.ff"), None);
    assert_eq!(split(b"zz.ff"), None);
}

#[test]
fn judge_checks_signature_then_claims_then_expiry() {
    let payload = encode_claims("a@x.com", 1000, 1900);
    let tag = [0xde, 0xad];
    assert_eq!(judge(&payload, b"dead", &tag, 1899), Ok(claims("a@x.com", 1000, 1900)));
    assert_eq!(judge(&payload, b"dead", &tag, 1900), Err(TokenError::Expired));
    assert_eq!(judge(&payload, b"deae", &tag, 1899), Err(TokenError::Invalid));
    assert_eq!(judge(&payload, b"deae", &tag, 1900), Err(TokenError::Invalid));
    assert_eq!(judge(&payload, b"DEAD", &tag, 1899), Err(TokenError::Invalid));
    assert_eq!(judge(&payload, b"dea", &tag, 1899), Err(TokenError::Invalid));
    assert_eq!(judge(&payload[..15], b"dead", &tag, 0), Err(TokenError::Invalid));
}
