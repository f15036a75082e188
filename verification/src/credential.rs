//! The credential service: registration, login and the identity check.
//!
//! Registration runs in two steps around the store. The caller looks the email
//! up and hands the answer to `register`, which says what to put on record; the
//! caller puts it there and hands the store's answer to `finish_registration`.
//! Login needs one lookup, and the identity check none.

use crate::error::AuthError;
use crate::models::NewUser;
use crate::password::{
    hash_password, password_accepted, salted_record, verify_password, SALT_LEN,
};
use crate::store::{true_insertion, true_lookup, Accounts, Insertion, Lookup};
use crate::token::{
    claims_of, issued, law_fresh_token_names_its_subject, verdict, Claims, ClaimsView,
    TokenCodec, TokenError,
};
use vstd::prelude::*;
use vstd::slice::slice_subrange;
use vstd::utf8::encode_utf8;

verus! {

/// The life of an access token, in seconds.
pub const ACCESS_TTL: u64 = 900;

/// The life of a refresh token, in seconds.
pub const REFRESH_TTL: u64 = 604800;

/// What a login gives: two tokens for one subject, told apart by their lives
/// alone.
#[derive(Clone, Debug, PartialEq, Eq)]
pub struct TokenPair {
    pub access_token: String,
    pub refresh_token: String,
}

/// Why a registration stops at the lookup, if it does.
pub open spec fn register_refusal(lookup: Lookup) -> Option<AuthError> {
    match lookup {
        Lookup::Found(_) => Some(AuthError::AccountExists),
        Lookup::Unavailable => Some(AuthError::StoreUnavailable),
        Lookup::Missing => None,
    }
}

/// How a registration ends, given the store's answer to the insertion. A store
/// that refuses a taken email says what the lookup would have said.
pub open spec fn registration_result(insertion: Insertion) -> Result<(), AuthError> {
    match insertion {
        Insertion::Created => Ok(()),
        Insertion::Duplicate => Err(AuthError::AccountExists),
        Insertion::Unavailable => Err(AuthError::StoreUnavailable),
    }
}

/// What is granted to `subject` at `now`, once the password check has said
/// `accepted`: the access token and the refresh token.
pub open spec fn grant_outcome(key: Seq<u8>, subject: Seq<char>, accepted: bool, now: u64) -> Result<
    (Seq<u8>, Seq<u8>),
    AuthError,
> {
    if !accepted {
        Err(AuthError::InvalidCredentials)
    } else {
        match (issued(key, subject, ACCESS_TTL, now), issued(key, subject, REFRESH_TTL, now)) {
            (Some(access), Some(refresh)) => Ok((access, refresh)),
            _ => Err(AuthError::IssuanceFailed),
        }
    }
}

/// How a login with `password` ends at `now`, given the store's answer to the
/// lookup. An email that is not on record and a password that is not accepted
/// end alike.
pub open spec fn login_outcome(key: Seq<u8>, password: Seq<char>, lookup: Lookup, now: u64) -> Result<
    (Seq<u8>, Seq<u8>),
    AuthError,
> {
    match lookup {
        Lookup::Unavailable => Err(AuthError::StoreUnavailable),
        Lookup::Missing => Err(AuthError::InvalidCredentials),
        Lookup::Found(user) => grant_outcome(
            key,
            user.email@,
            password_accepted(password, user.password_hash@),
            now,
        ),
    }
}

/// A login's result as a mathematical value: the bytes of the two tokens.
pub open spec fn pair_view(r: Result<TokenPair, AuthError>) -> Result<
    (Seq<u8>, Seq<u8>),
    AuthError,
> {
    match r {
        Ok(pair) => Ok((encode_utf8(pair.access_token@), encode_utf8(pair.refresh_token@))),
        Err(e) => Err(e),
    }
}

/// The kind of failure that a rejected token is reported as.
pub open spec fn token_failure_of(e: TokenError) -> AuthError {
    match e {
        TokenError::Invalid => AuthError::InvalidToken,
        TokenError::Expired => AuthError::TokenExpired,
    }
}

/// What a verdict on a token means to a request that presents it.
pub open spec fn admitted(v: Result<ClaimsView, TokenError>) -> Result<ClaimsView, AuthError> {
    match v {
        Ok(c) => Ok(c),
        Err(e) => Err(token_failure_of(e)),
    }
}

/// A request's claims as a mathematical value.
pub open spec fn identity_view(r: Result<Claims, AuthError>) -> Result<ClaimsView, AuthError> {
    match r {
        Ok(c) => Ok(c@),
        Err(e) => Err(e),
    }
}

/// The bytes `Bearer` and a space, which stand before a presented token.
pub open spec fn bearer_prefix() -> Seq<u8> {
    seq![0x42u8, 0x65u8, 0x61u8, 0x72u8, 0x65u8, 0x72u8, 0x20u8]
}

/// The token that an `Authorization` header presents, if it presents one.
pub open spec fn bearer_credential(header: Seq<u8>) -> Option<Seq<u8>> {
    if header.len() >= 7 && header.subrange(0, 7) == bearer_prefix() {
        Some(header.skip(7))
    } else {
        None
    }
}

/// How the identity check ends at `now` for the header `header`, if there is one.
pub open spec fn me_outcome(key: Seq<u8>, header: Option<Seq<u8>>, now: u64) -> Result<
    ClaimsView,
    AuthError,
> {
    match header {
        None => Err(AuthError::InvalidToken),
        Some(bytes) => match bearer_credential(bytes) {
            None => Err(AuthError::InvalidToken),
            Some(token) => admitted(verdict(key, token, now)),
        },
    }
}

/// The first step of a registration: whether the email is free.
pub fn check_available(lookup: &Lookup) -> (r: Result<(), AuthError>)
    ensures
        match r {
            Ok(_) => register_refusal(*lookup) is None,
            Err(e) => register_refusal(*lookup) == Some(e),
        },
{
    match lookup {
        Lookup::Found(_) => Err(AuthError::AccountExists),
        Lookup::Unavailable => Err(AuthError::StoreUnavailable),
        Lookup::Missing => Ok(()),
    }
}

/// The account to put on record for `email`, given what hashing the password
/// gave.
pub fn new_account(email: &str, hashed: Result<String, AuthError>) -> (r: Result<
    NewUser,
    AuthError,
>)
    ensures
        match (hashed, r) {
            (Ok(text), Ok(account)) => account.email@ == email@ && account.password_hash@
                == text@,
            (Err(_), Err(e)) => e == AuthError::HashingFailed,
            _ => false,
        },
{
    match hashed {
        Ok(password_hash) => Ok(NewUser { email: email.to_owned(), password_hash }),
        Err(_) => Err(AuthError::HashingFailed),
    }
}

/// Registration, from the store's answer to the lookup of `email`: the account
/// to put on record, under a hash that accepts `password` and was made with a
/// salt of its own. An email on record
/// gives `AccountExists` and a store that failed `StoreUnavailable`, and in
/// neither case is anything hashed. No token is issued: the client logs in.
pub fn register(email: &str, password: &str, lookup: &Lookup) -> (r: Result<NewUser, AuthError>)
    ensures
        match r {
            Ok(account) => register_refusal(*lookup) is None && account.email@ == email@
                && password_accepted(password@, account.password_hash@) && exists|salt: Seq<u8>|
                salt.len() == SALT_LEN && #[trigger] salted_record(password@, salt) == Some(
                    account.password_hash@,
                ),
            Err(e) => register_refusal(*lookup) == Some(e) || (register_refusal(*lookup) is None
                && e == AuthError::HashingFailed),
        },
{
    match check_available(lookup) {
        Err(e) => Err(e),
        Ok(_) => new_account(email, hash_password(password)),
    }
}

/// The end of a registration, from the store's answer to the insertion.
pub fn finish_registration(insertion: Insertion) -> (r: Result<(), AuthError>)
    ensures
        r == registration_result(insertion),
{
    match insertion {
        Insertion::Created => Ok(()),
        Insertion::Duplicate => Err(AuthError::AccountExists),
        Insertion::Unavailable => Err(AuthError::StoreUnavailable),
    }
}

/// The two tokens for `subject`, issued at `now`, where the password check said
/// `accepted`; `InvalidCredentials` where it did not.
pub fn grant(codec: &TokenCodec, subject: &str, accepted: bool, now: u64) -> (r: Result<
    TokenPair,
    AuthError,
>)
    ensures
        pair_view(r) == grant_outcome(codec.key(), subject@, accepted, now),
{
    if !accepted {
        return Err(AuthError::InvalidCredentials);
    }
    let access_token: String = match codec.issue(subject, ACCESS_TTL, now) {
        Ok(token) => token,
        Err(_) => {
            return Err(AuthError::IssuanceFailed);
        },
    };
    let refresh_token: String = match codec.issue(subject, REFRESH_TTL, now) {
        Ok(token) => token,
        Err(_) => {
            return Err(AuthError::IssuanceFailed);
        },
    };
    Ok(TokenPair { access_token, refresh_token })
}

/// Login at `now`, from the store's answer to the lookup of the email: an access
/// token and a refresh token for the account found, where its hash accepts
/// `password`. Nothing is put on record.
pub fn login(codec: &TokenCodec, password: &str, lookup: &Lookup, now: u64) -> (r: Result<
    TokenPair,
    AuthError,
>)
    ensures
        pair_view(r) == login_outcome(codec.key(), password@, *lookup, now),
{
    match lookup {
        Lookup::Unavailable => Err(AuthError::StoreUnavailable),
        Lookup::Missing => Err(AuthError::InvalidCredentials),
        Lookup::Found(user) => {
            let accepted: bool = verify_password(password, user.password_hash.as_str());
            grant(codec, user.email.as_str(), accepted, now)
        },
    }
}

/// The kind of failure that a rejected token is reported as.
pub fn token_failure(e: TokenError) -> (kind: AuthError)
    ensures
        kind == token_failure_of(e),
{
    match e {
        TokenError::Invalid => AuthError::InvalidToken,
        TokenError::Expired => AuthError::TokenExpired,
    }
}

/// The token that the header `header` presents: what follows `Bearer` and one
/// space.
pub fn bearer_token(header: &[u8]) -> (token: Option<&[u8]>)
    ensures
        match token {
            Some(bytes) => bearer_credential(header@) == Some(bytes@),
            None => bearer_credential(header@) is None,
        },
{
    if header.len() < 7 {
        return None;
    }
    let same: bool = header[0] == 0x42 && header[1] == 0x65 && header[2] == 0x61 && header[3]
        == 0x72 && header[4] == 0x65 && header[5] == 0x72 && header[6] == 0x20;
    if same {
        assert(header@.subrange(0, 7) =~= bearer_prefix());
        let rest: &[u8] = slice_subrange(header, 7, header.len());
        assert(rest@ =~= header@.skip(7));
        Some(rest)
    } else {
        assert(header@.subrange(0, 7)[0] == header@[0]);
        assert(header@.subrange(0, 7)[1] == header@[1]);
        assert(header@.subrange(0, 7)[2] == header@[2]);
        assert(header@.subrange(0, 7)[3] == header@[3]);
        assert(header@.subrange(0, 7)[4] == header@[4]);
        assert(header@.subrange(0, 7)[5] == header@[5]);
        assert(header@.subrange(0, 7)[6] == header@[6]);
        None
    }
}

/// The identity check at `now`: the claims of the access token that the
/// `Authorization` header presents, as they stand in the token. The store is not
/// asked. A request without the header, or with one that presents no token, is
/// refused as one with an invalid token.
pub fn me(codec: &TokenCodec, authorization: Option<&str>, now: u64) -> (r: Result<
    Claims,
    AuthError,
>)
    ensures
        identity_view(r) == me_outcome(
            codec.key(),
            match authorization {
                Some(header) => Some(encode_utf8(header@)),
                None => None,
            },
            now,
        ),
{
    let header: &str = match authorization {
        Some(header) => header,
        None => {
            return Err(AuthError::InvalidToken);
        },
    };
    let token: &[u8] = match bearer_token(header.as_bytes()) {
        Some(token) => token,
        None => {
            return Err(AuthError::InvalidToken);
        },
    };
    match codec.verify_bytes(token, now) {
        Ok(claims) => Ok(claims),
        Err(e) => Err(token_failure(e)),
    }
}

/// Of two registrations of one email that run one after the other against a
/// store that answers truthfully, the second is refused with `AccountExists`
/// where the first succeeded.
pub proof fn law_second_registration_is_refused(
    before: Accounts,
    email: Seq<char>,
    password_hash: Seq<char>,
    first_lookup: Lookup,
    first_insertion: Insertion,
    between: Accounts,
    second_lookup: Lookup,
)
    requires
        true_lookup(before, email, first_lookup),
        register_refusal(first_lookup) is None,
        true_insertion(before, email, password_hash, first_insertion, between),
        registration_result(first_insertion) is Ok,
        true_lookup(between, email, second_lookup),
    ensures
        register_refusal(second_lookup) == Some(AuthError::AccountExists),
{
}

/// Of two registrations of one email that both found it free, and whose
/// insertions reach a truthful store one after the other, exactly one succeeds:
/// the other is refused with `AccountExists`.
pub proof fn law_racing_registrations_have_one_winner(
    before: Accounts,
    email: Seq<char>,
    first_hash: Seq<char>,
    second_hash: Seq<char>,
    first_insertion: Insertion,
    between: Accounts,
    second_insertion: Insertion,
    after: Accounts,
)
    requires
        !before.contains_key(email),
        true_insertion(before, email, first_hash, first_insertion, between),
        true_insertion(between, email, second_hash, second_insertion, after),
    ensures
        registration_result(first_insertion) is Ok,
        registration_result(second_insertion) == Err::<(), AuthError>(AuthError::AccountExists),
        after == before.insert(email, first_hash),
{
}

/// A login with the password that the account's hash accepts gives two tokens,
/// each of which names the account's email at once: the access token until
/// `ACCESS_TTL` later, the refresh token until `REFRESH_TTL` later. Left out: the
/// moments so late that an expiry does not fit in 64 bits, where the login
/// gives `IssuanceFailed`.
pub proof fn law_accepted_login_gives_tokens(
    key: Seq<u8>,
    password: Seq<char>,
    lookup: Lookup,
    now: u64,
)
    requires
        lookup matches Lookup::Found(user) && password_accepted(password, user.password_hash@),
        now + REFRESH_TTL <= u64::MAX,
    ensures
        login_outcome(key, password, lookup, now) is Ok,
        verdict(key, login_outcome(key, password, lookup, now).unwrap().0, now) == Ok::<
            ClaimsView,
            TokenError,
        >(claims_of(lookup->Found_0.email@, now, (now + ACCESS_TTL) as u64)),
        verdict(key, login_outcome(key, password, lookup, now).unwrap().1, now) == Ok::<
            ClaimsView,
            TokenError,
        >(claims_of(lookup->Found_0.email@, now, (now + REFRESH_TTL) as u64)),
{
    let subject = lookup->Found_0.email@;
    law_fresh_token_names_its_subject(key, subject, ACCESS_TTL, now);
    law_fresh_token_names_its_subject(key, subject, REFRESH_TTL, now);
}

/// A login with an email that is not on record and a login with a password that
/// the account's hash does not accept end with the same kind of failure.
pub proof fn law_login_failures_are_alike(
    key: Seq<u8>,
    password: Seq<char>,
    lookup: Lookup,
    now: u64,
)
    requires
        lookup matches Lookup::Found(user) ==> !password_accepted(password, user.password_hash@),
        !(lookup is Unavailable),
    ensures
        login_outcome(key, password, lookup, now) == Err::<(Seq<u8>, Seq<u8>), AuthError>(
            AuthError::InvalidCredentials,
        ),
        login_outcome(key, password, lookup, now) == login_outcome(
            key,
            password,
            Lookup::Missing,
            now,
        ),
{
}

} // verus!
