//! The token codec: signed, self-contained tokens that carry a subject and a
//! validity window.
//!
//! A token is ASCII text of two segments with a `.` between them. The first is
//! the hexadecimal text of the claims: the time of issue and the time of expiry,
//! eight bytes each, the low byte first, then the subject in UTF-8. The second is
//! the hexadecimal text of the HMAC-SHA-256 tag of the claims' bytes under the
//! codec's key. Times are seconds since the epoch, and the caller brings the
//! clock: no function here reads it.

use crate::error::AuthError;
use crate::hex::{
    from_hex, hex_text, is_digit, lemma_hex_text_injective, lemma_hex_text_is_hex,
    lemma_hex_text_of_bytes, push_hex, to_hex,
};
use crate::mac::{hmac_sha256, same_bytes, tag};
use crate::text::{ascii_text, text_of};
use vstd::bytes::{
    lemma_auto_spec_u64_to_from_le_bytes, spec_u64_from_le_bytes, spec_u64_to_le_bytes,
    u64_from_le_bytes, u64_to_le_bytes,
};
use vstd::prelude::*;
use vstd::slice::{slice_subrange, slice_to_vec};
use vstd::utf8::{
    decode_utf8, decode_utf8_encode_utf8, encode_utf8, encode_utf8_decode_utf8,
    encode_utf8_valid_utf8, valid_utf8,
};

verus! {

/// The byte between a token's two segments: `.`.
pub const SEPARATOR: u8 = 0x2e;

/// The bytes that the claims take before the subject.
pub const HEADER_LEN: usize = 16;

/// What a verified token says.
#[derive(Clone, Debug, PartialEq, Eq)]
pub struct Claims {
    /// The email of the account that the token stands for.
    pub subject: String,
    /// When the token was issued.
    pub issued_at: u64,
    /// From when on the token is no longer valid.
    pub expires_at: u64,
}

/// `Claims` as a mathematical value.
pub struct ClaimsView {
    pub subject: Seq<char>,
    pub issued_at: u64,
    pub expires_at: u64,
}

impl View for Claims {
    type V = ClaimsView;

    open spec fn view(&self) -> ClaimsView {
        ClaimsView {
            subject: self.subject@,
            issued_at: self.issued_at,
            expires_at: self.expires_at,
        }
    }
}

/// Why a token was not accepted.
#[derive(Clone, Copy, Debug, PartialEq, Eq, Structural)]
pub enum TokenError {
    /// Malformed, tampered with, or signed under another key.
    Invalid,
    /// Well-formed and rightly signed, and past its expiry.
    Expired,
}

/// The bytes of the claims `c`.
pub open spec fn claims_bytes(c: ClaimsView) -> Seq<u8> {
    spec_u64_to_le_bytes(c.issued_at) + spec_u64_to_le_bytes(c.expires_at) + encode_utf8(
        c.subject,
    )
}

/// The claims that the bytes `payload` hold, if they hold any.
pub open spec fn claims_read(payload: Seq<u8>) -> Option<ClaimsView> {
    if payload.len() >= HEADER_LEN && valid_utf8(payload.skip(HEADER_LEN as int)) {
        Some(
            ClaimsView {
                subject: decode_utf8(payload.skip(HEADER_LEN as int)),
                issued_at: spec_u64_from_le_bytes(payload.subrange(0, 8)),
                expires_at: spec_u64_from_le_bytes(payload.subrange(8, 16)),
            },
        )
    } else {
        None
    }
}

/// A token's bytes: the hexadecimal text of `payload`, the separator, and
/// `signature`.
pub open spec fn framed(payload: Seq<u8>, signature: Seq<u8>) -> Seq<u8> {
    hex_text(payload) + seq![SEPARATOR] + signature
}

/// The token that carries `c` under `key`.
pub open spec fn token_bytes(key: Seq<u8>, c: ClaimsView) -> Seq<u8> {
    framed(claims_bytes(c), hex_text(hmac_sha256(key, claims_bytes(c))))
}

/// `token` is the token that carries `c` under `key`.
pub open spec fn reads_as(key: Seq<u8>, token: Seq<u8>, c: ClaimsView) -> bool {
    token_bytes(key, c) == token
}

/// `token` carries some claims under `key`.
pub open spec fn genuine(key: Seq<u8>, token: Seq<u8>) -> bool {
    exists|c: ClaimsView| reads_as(key, token, c)
}

/// The claims that a genuine `token` carries under `key`.
pub open spec fn claims_in(key: Seq<u8>, token: Seq<u8>) -> ClaimsView {
    choose|c: ClaimsView| reads_as(key, token, c)
}

/// What verification says of `token` under `key` at the time `now`: a token that
/// carries no claims under the key is invalid; one that carries claims is expired
/// from its expiry on, and until then it gives its claims.
pub open spec fn verdict(key: Seq<u8>, token: Seq<u8>, now: u64) -> Result<
    ClaimsView,
    TokenError,
> {
    if !genuine(key, token) {
        Err(TokenError::Invalid)
    } else if claims_in(key, token).expires_at <= now {
        Err(TokenError::Expired)
    } else {
        Ok(claims_in(key, token))
    }
}

/// What is said of a payload whose signature segment is `signature`, once the
/// payload's tag under the key is known to be `tag`.
pub open spec fn judgement(payload: Seq<u8>, signature: Seq<u8>, tag: Seq<u8>, now: u64) -> Result<
    ClaimsView,
    TokenError,
> {
    if signature != hex_text(tag) {
        Err(TokenError::Invalid)
    } else {
        match claims_read(payload) {
            None => Err(TokenError::Invalid),
            Some(c) => if c.expires_at <= now {
                Err(TokenError::Expired)
            } else {
                Ok(c)
            },
        }
    }
}

/// The claims of `subject` with the given validity window.
pub open spec fn claims_of(subject: Seq<char>, issued_at: u64, expires_at: u64) -> ClaimsView {
    ClaimsView { subject, issued_at, expires_at }
}

/// The token issued for `subject` at `now` with `ttl_seconds` to live, or `None`
/// where the expiry does not fit in 64 bits.
pub open spec fn issued(key: Seq<u8>, subject: Seq<char>, ttl_seconds: u64, now: u64) -> Option<
    Seq<u8>,
> {
    if now + ttl_seconds > u64::MAX {
        None
    } else {
        Some(token_bytes(key, claims_of(subject, now, (now + ttl_seconds) as u64)))
    }
}

/// A result of verification as a mathematical value.
pub open spec fn outcome_view(r: Result<Claims, TokenError>) -> Result<ClaimsView, TokenError> {
    match r {
        Ok(c) => Ok(c@),
        Err(e) => Err(e),
    }
}

/// Reading undoes writing.
pub proof fn lemma_claims_read_of_bytes(c: ClaimsView)
    ensures
        claims_read(claims_bytes(c)) == Some(c),
{
    let payload = claims_bytes(c);
    lemma_auto_spec_u64_to_from_le_bytes();
    assert(payload.subrange(0, 8) =~= spec_u64_to_le_bytes(c.issued_at));
    assert(payload.subrange(8, 16) =~= spec_u64_to_le_bytes(c.expires_at));
    assert(payload.skip(16) =~= encode_utf8(c.subject));
    encode_utf8_valid_utf8(c.subject);
    encode_utf8_decode_utf8(c.subject);
    assert(claims_read(payload).unwrap().subject =~= c.subject);
}

/// Writing undoes reading: claims have one spelling.
pub proof fn lemma_claims_bytes_of_read(payload: Seq<u8>)
    requires
        claims_read(payload) is Some,
    ensures
        claims_bytes(claims_read(payload).unwrap()) == payload,
{
    lemma_auto_spec_u64_to_from_le_bytes();
    decode_utf8_encode_utf8(payload.skip(16));
    assert(payload.subrange(0, 8).len() == 8);
    assert(payload.subrange(8, 16).len() == 8);
    assert(payload.subrange(0, 8) + payload.subrange(8, 16) + payload.skip(16) =~= payload);
}

/// Two claims with the same bytes are the same claims.
pub proof fn lemma_claims_bytes_injective(a: ClaimsView, b: ClaimsView)
    requires
        claims_bytes(a) == claims_bytes(b),
    ensures
        a == b,
{
    lemma_claims_read_of_bytes(a);
    lemma_claims_read_of_bytes(b);
}

/// A token's bytes fix its payload and its signature segment.
pub proof fn lemma_framed_unique(p1: Seq<u8>, s1: Seq<u8>, p2: Seq<u8>, s2: Seq<u8>)
    requires
        framed(p1, s1) == framed(p2, s2),
    ensures
        p1 == p2,
        s1 == s2,
{
    let t = framed(p1, s1);
    lemma_hex_text_is_hex(p1);
    lemma_hex_text_is_hex(p2);
    let n1: int = 2 * (p1.len() as int);
    let n2: int = 2 * (p2.len() as int);
    assert(framed(p1, s1)[n1] == SEPARATOR);
    assert(framed(p2, s2)[n2] == SEPARATOR);
    if n1 < n2 {
        assert(framed(p2, s2)[n1] == hex_text(p2)[n1]);
        assert(is_digit(hex_text(p2)[n1]));
    }
    if n2 < n1 {
        assert(framed(p1, s1)[n2] == hex_text(p1)[n2]);
        assert(is_digit(hex_text(p1)[n2]));
    }
    assert(n1 == n2);
    assert(hex_text(p1) =~= t.subrange(0, n1));
    assert(hex_text(p2) =~= t.subrange(0, n1));
    lemma_hex_text_injective(p1, p2);
    assert(s1 =~= t.subrange(n1 + 1, t.len() as int));
    assert(s2 =~= t.subrange(n1 + 1, t.len() as int));
}

/// A token carries at most one set of claims under a key.
pub proof fn lemma_reads_as_unique(key: Seq<u8>, token: Seq<u8>, a: ClaimsView, b: ClaimsView)
    requires
        reads_as(key, token, a),
        reads_as(key, token, b),
    ensures
        a == b,
{
    let ta = hmac_sha256(key, claims_bytes(a));
    let tb = hmac_sha256(key, claims_bytes(b));
    lemma_framed_unique(claims_bytes(a), hex_text(ta), claims_bytes(b), hex_text(tb));
    lemma_claims_bytes_injective(a, b);
}

/// What verification says of a token that carries `c`.
pub proof fn lemma_verdict_of_genuine(key: Seq<u8>, token: Seq<u8>, c: ClaimsView, now: u64)
    requires
        reads_as(key, token, c),
    ensures
        verdict(key, token, now) == if c.expires_at <= now {
            Err::<ClaimsView, TokenError>(TokenError::Expired)
        } else {
            Ok::<ClaimsView, TokenError>(c)
        },
{
    lemma_reads_as_unique(key, token, c, claims_in(key, token));
}

/// The layout of a token's bytes.
pub proof fn lemma_framed_shape(payload: Seq<u8>, signature: Seq<u8>)
    ensures
        framed(payload, signature).len() == 2 * payload.len() + 1 + signature.len(),
        framed(payload, signature)[2 * (payload.len() as int)] == SEPARATOR,
        forall|j: int|
            0 <= j < 2 * payload.len() ==> is_digit(#[trigger] framed(payload, signature)[j]),
        framed(payload, signature).subrange(0, 2 * (payload.len() as int)) == hex_text(payload),
        framed(payload, signature).skip(2 * (payload.len() as int) + 1) == signature,
{
    let t = framed(payload, signature);
    let n: int = 2 * (payload.len() as int);
    lemma_hex_text_is_hex(payload);
    assert forall|j: int| 0 <= j < n implies is_digit(#[trigger] t[j]) by {
        assert(t[j] == hex_text(payload)[j]);
    }
    assert(t.subrange(0, n) =~= hex_text(payload));
    assert(t.skip(n + 1) =~= signature);
}

/// Bytes that are no frame carry no claims.
pub proof fn lemma_unframed_is_invalid(key: Seq<u8>, token: Seq<u8>, now: u64)
    requires
        forall|payload: Seq<u8>, signature: Seq<u8>|
            token != #[trigger] framed(payload, signature),
    ensures
        verdict(key, token, now) == Err::<ClaimsView, TokenError>(TokenError::Invalid),
{
    assert forall|c: ClaimsView| !reads_as(key, token, c) by {
        if reads_as(key, token, c) {
            let tag = hmac_sha256(key, claims_bytes(c));
            assert(token == framed(claims_bytes(c), hex_text(tag)));
        }
    }
}

/// Once the payload's tag is known, the judgement on the frame's parts is the
/// verdict on the token.
pub proof fn lemma_judgement_is_verdict(
    key: Seq<u8>,
    token: Seq<u8>,
    payload: Seq<u8>,
    signature: Seq<u8>,
    tag: Seq<u8>,
    now: u64,
)
    requires
        token == framed(payload, signature),
        tag == hmac_sha256(key, payload),
    ensures
        verdict(key, token, now) == judgement(payload, signature, tag, now),
{
    if signature == hex_text(tag) && claims_read(payload) is Some {
        let c = claims_read(payload).unwrap();
        lemma_claims_bytes_of_read(payload);
        assert(reads_as(key, token, c));
        lemma_verdict_of_genuine(key, token, c, now);
    } else {
        assert forall|c: ClaimsView| !reads_as(key, token, c) by {
            if reads_as(key, token, c) {
                let t = hmac_sha256(key, claims_bytes(c));
                lemma_framed_unique(payload, signature, claims_bytes(c), hex_text(t));
                lemma_claims_read_of_bytes(c);
            }
        }
    }
}

/// The bytes of the claims of `subject` with the given validity window.
pub fn encode_claims(subject: &str, issued_at: u64, expires_at: u64) -> (payload: Vec<u8>)
    ensures
        payload@ == claims_bytes(claims_of(subject@, issued_at, expires_at)),
{
    let mut payload: Vec<u8> = u64_to_le_bytes(issued_at);
    let mut expiry: Vec<u8> = u64_to_le_bytes(expires_at);
    payload.append(&mut expiry);
    let mut name: Vec<u8> = slice_to_vec(subject.as_bytes());
    payload.append(&mut name);
    payload
}

/// The claims that `payload` holds, or `None` where it is shorter than the two
/// times or its subject is not UTF-8.
pub fn decode_claims(payload: &[u8]) -> (claims: Option<Claims>)
    ensures
        match claims {
            Some(c) => claims_read(payload@) == Some(c@),
            None => claims_read(payload@) is None,
        },
{
    if payload.len() < HEADER_LEN {
        return None;
    }
    let issued_at: u64 = u64_from_le_bytes(slice_subrange(payload, 0, 8));
    let expires_at: u64 = u64_from_le_bytes(slice_subrange(payload, 8, 16));
    let name: Vec<u8> = slice_to_vec(slice_subrange(payload, HEADER_LEN, payload.len()));
    assert(name@ =~= payload@.skip(HEADER_LEN as int));
    match text_of(name) {
        Some(subject) => Some(Claims { subject, issued_at, expires_at }),
        None => None,
    }
}

/// The token made of `payload` and its tag.
pub fn seal(payload: &[u8], tag: &[u8]) -> (token: Vec<u8>)
    ensures
        token@ == framed(payload@, hex_text(tag@)),
{
    let mut token: Vec<u8> = Vec::new();
    push_hex(&mut token, payload);
    token.push(SEPARATOR);
    push_hex(&mut token, tag);
    assert(token@ =~= framed(payload@, hex_text(tag@)));
    token
}

/// Takes a token apart: its payload, and the place where its signature segment
/// starts. `None` where the bytes are no frame: no separator, or no hexadecimal
/// text before the first one.
pub fn split(token: &[u8]) -> (parts: Option<(Vec<u8>, usize)>)
    ensures
        match parts {
            Some((payload, at)) => at == 2 * payload@.len() + 1 && at <= token@.len() && token@
                == framed(payload@, token@.skip(at as int)),
            None => forall|payload: Seq<u8>, signature: Seq<u8>|
                token@ != #[trigger] framed(payload, signature),
        },
{
    let mut p: usize = 0;
    while p < token.len() && token[p] != SEPARATOR
        invariant
            p <= token.len(),
            forall|j: int| 0 <= j < p ==> token@[j] != SEPARATOR,
        decreases token.len() - p,
    {
        p += 1;
    }
    if p == token.len() {
        proof {
            assert forall|payload: Seq<u8>, signature: Seq<u8>|
                token@ != #[trigger] framed(payload, signature) by {
                lemma_framed_shape(payload, signature);
            }
        }
        return None;
    }
    let head: &[u8] = slice_subrange(token, 0, p);
    match from_hex(head) {
        None => {
            proof {
                assert forall|payload: Seq<u8>, signature: Seq<u8>|
                    token@ != #[trigger] framed(payload, signature) by {
                    lemma_framed_shape(payload, signature);
                    lemma_hex_text_is_hex(payload);
                    if token@ == framed(payload, signature) {
                        let n: int = 2 * (payload.len() as int);
                        if p < n {
                            assert(is_digit(token@[p as int]));
                        }
                        assert(p == n);
                    }
                }
            }
            None
        },
        Some(payload) => {
            proof {
                lemma_hex_text_of_bytes(head@);
                assert(token@ =~= framed(payload@, token@.skip(p + 1)));
            }
            Some((payload, p + 1))
        },
    }
}

/// Judges a token's parts against the tag of its payload: the signature segment
/// must spell the tag, the payload must hold claims, and the claims must not be
/// expired at `now`.
pub fn judge(payload: &[u8], signature: &[u8], tag: &[u8], now: u64) -> (r: Result<
    Claims,
    TokenError,
>)
    ensures
        outcome_view(r) == judgement(payload@, signature@, tag@, now),
{
    let expected: Vec<u8> = to_hex(tag);
    if !same_bytes(signature, expected.as_slice()) {
        return Err(TokenError::Invalid);
    }
    match decode_claims(payload) {
        None => Err(TokenError::Invalid),
        Some(claims) => {
            if claims.expires_at <= now {
                Err(TokenError::Expired)
            } else {
                Ok(claims)
            }
        },
    }
}

/// Issues and verifies tokens under one signing key, given at construction and
/// held for the codec's life.
pub struct TokenCodec {
    key: Vec<u8>,
}

impl TokenCodec {
    /// The signing key.
    pub closed spec fn key(&self) -> Seq<u8> {
        self.key@
    }

    /// A codec that signs under `key`.
    pub fn new(key: &[u8]) -> (codec: TokenCodec)
        ensures
            codec.key() == key@,
    {
        TokenCodec { key: slice_to_vec(key) }
    }

    /// A token for `subject`, issued at `now` and expiring `ttl_seconds` later.
    /// It fails where the expiry does not fit in 64 bits, and nowhere else.
    pub fn issue(&self, subject: &str, ttl_seconds: u64, now: u64) -> (r: Result<
        String,
        AuthError,
    >)
        ensures
            match r {
                Ok(token) => issued(self.key(), subject@, ttl_seconds, now) == Some(
                    encode_utf8(token@),
                ),
                Err(e) => e == AuthError::IssuanceFailed && issued(
                    self.key(),
                    subject@,
                    ttl_seconds,
                    now,
                ) is None,
            },
    {
        let expires_at: u64 = match now.checked_add(ttl_seconds) {
            Some(t) => t,
            None => {
                return Err(AuthError::IssuanceFailed);
            },
        };
        let payload: Vec<u8> = encode_claims(subject, now, expires_at);
        let signed: Vec<u8> = tag(self.key.as_slice(), payload.as_slice());
        let token: Vec<u8> = seal(payload.as_slice(), signed.as_slice());
        proof {
            lemma_framed_shape(payload@, hex_text(signed@));
            lemma_hex_text_is_hex(signed@);
            let n: int = 2 * (payload@.len() as int);
            assert forall|i: int| 0 <= i < token@.len() implies #[trigger] token@[i] < 0x80 by {
                if i < n {
                    assert(is_digit(token@[i]));
                } else if i > n {
                    assert(token@[i] == hex_text(signed@)[i - n - 1]);
                    assert(is_digit(hex_text(signed@)[i - n - 1]));
                }
            }
        }
        Ok(ascii_text(token))
    }

    /// Verifies the token `token` at the time `now`.
    pub fn verify_bytes(&self, token: &[u8], now: u64) -> (r: Result<Claims, TokenError>)
        ensures
            outcome_view(r) == verdict(self.key(), token@, now),
    {
        let (payload, at) = match split(token) {
            Some(parts) => parts,
            None => {
                proof {
                    lemma_unframed_is_invalid(self.key@, token@, now);
                }
                return Err(TokenError::Invalid);
            },
        };
        let signature: &[u8] = slice_subrange(token, at, token.len());
        assert(signature@ =~= token@.skip(at as int));
        let expected: Vec<u8> = tag(self.key.as_slice(), payload.as_slice());
        proof {
            lemma_judgement_is_verdict(self.key@, token@, payload@, signature@, expected@, now);
        }
        judge(payload.as_slice(), signature, expected.as_slice(), now)
    }

    /// Verifies the token `token` at the time `now`: its claims where it was
    /// issued under this codec's key and is not yet expired, `Expired` where it
    /// was and is, and `Invalid` for anything else.
    pub fn verify(&self, token: &str, now: u64) -> (r: Result<Claims, TokenError>)
        ensures
            outcome_view(r) == verdict(self.key(), encode_utf8(token@), now),
    {
        self.verify_bytes(token.as_bytes(), now)
    }
}

/// A token verified at the moment of its issue, with a time to live above zero,
/// gives claims that name the subject it was issued for. Left out: the moments
/// so late that the expiry does not fit in 64 bits, where no token is issued.
pub proof fn law_fresh_token_names_its_subject(
    key: Seq<u8>,
    subject: Seq<char>,
    ttl_seconds: u64,
    now: u64,
)
    requires
        ttl_seconds > 0,
        now + ttl_seconds <= u64::MAX,
    ensures
        issued(key, subject, ttl_seconds, now) is Some,
        verdict(key, issued(key, subject, ttl_seconds, now).unwrap(), now) == Ok::<
            ClaimsView,
            TokenError,
        >(claims_of(subject, now, (now + ttl_seconds) as u64)),
{
    let c = claims_of(subject, now, (now + ttl_seconds) as u64);
    lemma_verdict_of_genuine(key, token_bytes(key, c), c, now);
}

/// A token lives for exactly its time to live: it gives its claims at every
/// moment before its expiry, one second before it too, and is expired at the
/// expiry and at every moment after, one second after it too.
pub proof fn law_expiry_is_exact(
    key: Seq<u8>,
    subject: Seq<char>,
    ttl_seconds: u64,
    issued_at: u64,
    at: u64,
)
    requires
        issued_at + ttl_seconds <= u64::MAX,
    ensures
        issued(key, subject, ttl_seconds, issued_at) is Some,
        at >= issued_at + ttl_seconds ==> verdict(
            key,
            issued(key, subject, ttl_seconds, issued_at).unwrap(),
            at,
        ) == Err::<ClaimsView, TokenError>(TokenError::Expired),
        at < issued_at + ttl_seconds ==> verdict(
            key,
            issued(key, subject, ttl_seconds, issued_at).unwrap(),
            at,
        ) == Ok::<ClaimsView, TokenError>(
            claims_of(subject, issued_at, (issued_at + ttl_seconds) as u64),
        ),
{
    let c = claims_of(subject, issued_at, (issued_at + ttl_seconds) as u64);
    lemma_verdict_of_genuine(key, token_bytes(key, c), c, at);
}

/// Changing one byte of a genuine token's signature segment makes the token
/// invalid: never expired, never accepted.
pub proof fn law_tampered_signature_is_invalid(
    key: Seq<u8>,
    c: ClaimsView,
    token: Seq<u8>,
    i: int,
    b: u8,
    now: u64,
)
    requires
        reads_as(key, token, c),
        2 * claims_bytes(c).len() < i < token.len(),
        b != token[i],
    ensures
        verdict(key, token.update(i, b), now) == Err::<ClaimsView, TokenError>(
            TokenError::Invalid,
        ),
{
    let payload = claims_bytes(c);
    let tag = hmac_sha256(key, payload);
    let n: int = 2 * (payload.len() as int);
    let forged = token.update(i, b);
    let signature = hex_text(tag).update(i - n - 1, b);
    lemma_framed_shape(payload, hex_text(tag));
    assert(forged =~= framed(payload, signature));
    assert(signature[i - n - 1] != hex_text(tag)[i - n - 1]);
    lemma_judgement_is_verdict(key, forged, payload, signature, tag, now);
}

} // verus!
