//! The refresh protocol: a refresh token is traded for a new access token for
//! the same subject, without the password.
//!
//! It runs in two steps around the store. `begin_refresh` verifies the token and
//! names the subject; the caller asks the store whether that account is still on
//! record and hands the answer to `refresh`. The refresh token is not consumed:
//! it serves again until it expires. A store that fails is reported as such,
//! never as an account that is gone.

use crate::credential::{token_failure, token_failure_of, ACCESS_TTL, REFRESH_TTL};
use crate::error::AuthError;
use crate::store::{true_presence, Accounts, Presence};
use crate::token::{
    claims_in, claims_of, issued, law_expiry_is_exact, law_fresh_token_names_its_subject,
    verdict, ClaimsView, TokenCodec, TokenError,
};
use vstd::prelude::*;
use vstd::utf8::encode_utf8;

verus! {

/// A refresh that has passed verification and waits for the store's word on its
/// subject. Only `begin_refresh` makes one.
pub struct PendingRefresh {
    subject: String,
}

impl View for PendingRefresh {
    type V = Seq<char>;

    /// The subject of the verified refresh token.
    closed spec fn view(&self) -> Seq<char> {
        self.subject@
    }
}

impl PendingRefresh {
    /// The email to ask the store about.
    pub fn subject(&self) -> (email: &str)
        ensures
            email@ == self@,
    {
        self.subject.as_str()
    }
}

/// Whom a presented refresh token admits at `now`: its subject, where it is
/// genuine and not expired.
pub open spec fn refresh_admission(key: Seq<u8>, token: Seq<u8>, now: u64) -> Result<
    Seq<char>,
    AuthError,
> {
    match verdict(key, token, now) {
        Ok(c) => Ok(c.subject),
        Err(e) => Err(token_failure_of(e)),
    }
}

/// How a refresh for `subject` ends at `now`, given the store's word on the
/// account: a new access token where it is on record. An account that is gone
/// gives `AccountRevoked`, and a store that cannot say `StoreUnavailable`.
pub open spec fn refresh_outcome(key: Seq<u8>, subject: Seq<char>, presence: Presence, now: u64) -> Result<
    Seq<u8>,
    AuthError,
> {
    match presence {
        Presence::Present => match issued(key, subject, ACCESS_TTL, now) {
            Some(token) => Ok(token),
            None => Err(AuthError::IssuanceFailed),
        },
        Presence::Absent => Err(AuthError::AccountRevoked),
        Presence::Unavailable => Err(AuthError::StoreUnavailable),
    }
}

/// The text shown to the client when a refresh is refused: a refresh token that
/// is invalid or expired is named as such, and every other kind has its own
/// text.
pub open spec fn refusal_text_of(kind: AuthError) -> Seq<char> {
    match kind {
        AuthError::InvalidToken => "Invalid refresh token"@,
        AuthError::TokenExpired => "Invalid refresh token"@,
        _ => kind.message_of(),
    }
}

/// An issued token's result as a mathematical value: the token's bytes.
pub open spec fn token_view(r: Result<String, AuthError>) -> Result<Seq<u8>, AuthError> {
    match r {
        Ok(token) => Ok(encode_utf8(token@)),
        Err(e) => Err(e),
    }
}

/// The first step of a refresh at `now`: verifies the refresh token. An invalid
/// token gives `InvalidToken`, an expired one `TokenExpired`.
pub fn begin_refresh(codec: &TokenCodec, refresh_token: &str, now: u64) -> (r: Result<
    PendingRefresh,
    AuthError,
>)
    ensures
        match r {
            Ok(pending) => refresh_admission(codec.key(), encode_utf8(refresh_token@), now) == Ok::<
                Seq<char>,
                AuthError,
            >(pending@),
            Err(e) => refresh_admission(codec.key(), encode_utf8(refresh_token@), now) == Err::<
                Seq<char>,
                AuthError,
            >(e),
        },
{
    match codec.verify(refresh_token, now) {
        Ok(claims) => Ok(PendingRefresh { subject: claims.subject }),
        Err(e) => Err(token_failure(e)),
    }
}

/// The second step of a refresh at `now`, from the store's word on the subject's
/// account: a new access token for the same subject where the account is on
/// record, `AccountRevoked` where it is gone, `StoreUnavailable` where the store
/// could not say, and `IssuanceFailed` where the new expiry does not fit.
pub fn refresh(codec: &TokenCodec, pending: &PendingRefresh, presence: Presence, now: u64) -> (r:
    Result<String, AuthError>)
    ensures
        token_view(r) == refresh_outcome(codec.key(), pending@, presence, now),
{
    match presence {
        Presence::Present => codec.issue(pending.subject(), ACCESS_TTL, now),
        Presence::Absent => Err(AuthError::AccountRevoked),
        Presence::Unavailable => Err(AuthError::StoreUnavailable),
    }
}

/// The text shown to the client when a refresh is refused with `kind`.
pub fn refusal_text(kind: AuthError) -> (text: &'static str)
    ensures
        text@ == refusal_text_of(kind),
{
    match kind {
        AuthError::InvalidToken => "Invalid refresh token",
        AuthError::TokenExpired => "Invalid refresh token",
        _ => kind.message(),
    }
}

/// A refresh token serves through its whole life: at every moment from its
/// issue to one second before its expiry it admits its subject, and with the
/// account on record the refresh gives an access token for that subject which
/// expires one access life after the refresh, later than the refresh token
/// itself where the refresh comes late. Left out: the moments so late that the
/// new expiry does not fit in 64 bits, where the refresh gives `IssuanceFailed`.
pub proof fn law_refresh_within_life(
    key: Seq<u8>,
    subject: Seq<char>,
    issued_at: u64,
    now: u64,
)
    requires
        issued_at + REFRESH_TTL <= u64::MAX,
        issued_at <= now < issued_at + REFRESH_TTL,
        now + ACCESS_TTL <= u64::MAX,
    ensures
        issued(key, subject, REFRESH_TTL, issued_at) is Some,
        refresh_admission(key, issued(key, subject, REFRESH_TTL, issued_at).unwrap(), now)
            == Ok::<Seq<char>, AuthError>(subject),
        refresh_outcome(key, subject, Presence::Present, now) is Ok,
        verdict(key, refresh_outcome(key, subject, Presence::Present, now).unwrap(), now) == Ok::<
            ClaimsView,
            TokenError,
        >(claims_of(subject, now, (now + ACCESS_TTL) as u64)),
{
    law_expiry_is_exact(key, subject, REFRESH_TTL, issued_at, now);
    law_fresh_token_names_its_subject(key, subject, ACCESS_TTL, now);
}

/// A refresh ends with `StoreUnavailable` exactly where the store could not
/// say whether the account is on record: such a failure is never reported as a
/// revoked account, and no access token comes with it.
pub proof fn law_refresh_reports_store_failure(
    key: Seq<u8>,
    subject: Seq<char>,
    presence: Presence,
    now: u64,
)
    ensures
        presence is Unavailable <==> refresh_outcome(key, subject, presence, now) == Err::<
            Seq<u8>,
            AuthError,
        >(AuthError::StoreUnavailable),
{
}

/// The access token that a refresh gives names the subject of the refresh, and
/// expires one access life after the refresh.
pub proof fn law_refreshed_token_keeps_subject(
    key: Seq<u8>,
    subject: Seq<char>,
    presence: Presence,
    now: u64,
    access: Seq<u8>,
)
    requires
        refresh_outcome(key, subject, presence, now) == Ok::<Seq<u8>, AuthError>(access),
    ensures
        presence is Present,
        verdict(key, access, now) == Ok::<ClaimsView, TokenError>(
            claims_of(subject, now, (now + ACCESS_TTL) as u64),
        ),
{
    law_fresh_token_names_its_subject(key, subject, ACCESS_TTL, now);
}

/// A refresh token is not used up: one that admits its subject at some moment
/// admits the same subject at every later moment before its expiry.
pub proof fn law_refresh_token_serves_again(key: Seq<u8>, token: Seq<u8>, now: u64, later: u64)
    requires
        refresh_admission(key, token, now) is Ok,
        now <= later < claims_in(key, token).expires_at,
    ensures
        refresh_admission(key, token, later) == refresh_admission(key, token, now),
{
}

/// A refresh for an account that is gone from a truthful store is refused with
/// `AccountRevoked`, though its token is genuine and not expired.
pub proof fn law_refresh_after_removal_is_revoked(
    key: Seq<u8>,
    token: Seq<u8>,
    accounts: Accounts,
    presence: Presence,
    now: u64,
)
    requires
        refresh_admission(key, token, now) is Ok,
        !accounts.contains_key(refresh_admission(key, token, now).unwrap()),
        true_presence(accounts, refresh_admission(key, token, now).unwrap(), presence),
    ensures
        refresh_outcome(key, refresh_admission(key, token, now).unwrap(), presence, now) == Err::<
            Seq<u8>,
            AuthError,
        >(AuthError::AccountRevoked),
{
}

} // verus!
