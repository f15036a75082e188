//! Accounts as the store holds them.

use vstd::prelude::*;

verus! {

/// An account on record. The store assigns `id` and keeps the two timestamps,
/// held here as seconds since the epoch; nothing in this crate changes an
/// account.
#[derive(Clone, Debug, PartialEq, Eq)]
pub struct User {
    pub id: i32,
    /// Unique among accounts, compared as stored.
    pub email: String,
    /// A record made by the password hasher. It never leaves the service.
    pub password_hash: String,
    pub created_at: i64,
    pub updated_at: i64,
}

/// An account to be put on record.
#[derive(Clone, Debug, PartialEq, Eq)]
pub struct NewUser {
    pub email: String,
    pub password_hash: String,
}

} // verus!
