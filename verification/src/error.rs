//! The kinds of failure that leave this crate.

use vstd::prelude::*;

verus! {

/// Why a request was refused. Every failure of the store or of a cryptographic
/// primitive reaches the caller as exactly one of these.
#[derive(Clone, Copy, Debug, PartialEq, Eq, Structural)]
pub enum AuthError {
    /// An account with this email is already registered.
    AccountExists,
    /// No such account, or a wrong password: the two are not told apart.
    InvalidCredentials,
    /// The account store failed or did not answer.
    StoreUnavailable,
    /// The password could not be hashed.
    HashingFailed,
    /// The token is malformed, tampered with or signed under another key.
    InvalidToken,
    /// The token is genuine and past its expiry.
    TokenExpired,
    /// The account that the token names is gone.
    AccountRevoked,
    /// No token could be made.
    IssuanceFailed,
}

impl AuthError {
    /// The HTTP status that stands for this kind.
    pub open spec fn status_of(self) -> u16 {
        match self {
            AuthError::AccountExists => 409,
            AuthError::InvalidCredentials => 401,
            AuthError::InvalidToken => 401,
            AuthError::TokenExpired => 401,
            AuthError::AccountRevoked => 401,
            AuthError::StoreUnavailable => 500,
            AuthError::HashingFailed => 500,
            AuthError::IssuanceFailed => 500,
        }
    }

    /// The HTTP status that stands for this kind: one kind, one status.
    pub fn status(&self) -> (code: u16)
        ensures
            code == self.status_of(),
    {
        match self {
            AuthError::AccountExists => 409,
            AuthError::InvalidCredentials => 401,
            AuthError::InvalidToken => 401,
            AuthError::TokenExpired => 401,
            AuthError::AccountRevoked => 401,
            AuthError::StoreUnavailable => 500,
            AuthError::HashingFailed => 500,
            AuthError::IssuanceFailed => 500,
        }
    }

    /// The text shown to the client for this kind.
    pub open spec fn message_of(self) -> Seq<char> {
        match self {
            AuthError::AccountExists => "User already exists"@,
            AuthError::InvalidCredentials => "Invalid credentials"@,
            AuthError::StoreUnavailable => "Database error"@,
            AuthError::HashingFailed => "Password hashing failed"@,
            AuthError::InvalidToken => "Invalid token"@,
            AuthError::TokenExpired => "Token expired"@,
            AuthError::AccountRevoked => "User no longer exists"@,
            AuthError::IssuanceFailed => "Token creation failed"@,
        }
    }

    /// The text shown to the client for this kind. It carries no detail of the
    /// store or of the primitives.
    pub fn message(&self) -> (text: &'static str)
        ensures
            text@ == self.message_of(),
    {
        match self {
            AuthError::AccountExists => "User already exists",
            AuthError::InvalidCredentials => "Invalid credentials",
            AuthError::StoreUnavailable => "Database error",
            AuthError::HashingFailed => "Password hashing failed",
            AuthError::InvalidToken => "Invalid token",
            AuthError::TokenExpired => "Token expired",
            AuthError::AccountRevoked => "User no longer exists",
            AuthError::IssuanceFailed => "Token creation failed",
        }
    }
}

} // verus!
