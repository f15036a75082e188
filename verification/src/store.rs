//! The account store as this crate meets it: the answers that the caller brings
//! back from it, and a model of a store that answers truthfully, over which the
//! laws of registration are stated.

use crate::models::User;
use vstd::prelude::*;

verus! {

/// The store's answer to "find the account with this email".
#[derive(Clone, Debug, PartialEq, Eq)]
pub enum Lookup {
    /// There is one, and this is it.
    Found(User),
    /// There is none.
    Missing,
    /// The store failed or did not answer in time.
    Unavailable,
}

/// The store's answer to "put this new account on record".
#[derive(Clone, Copy, Debug, PartialEq, Eq, Structural)]
pub enum Insertion {
    /// The account is on record.
    Created,
    /// The store refused it: the email is taken.
    Duplicate,
    /// The store failed or did not answer in time.
    Unavailable,
}

/// The store's answer to "is there an account with this email".
#[derive(Clone, Copy, Debug, PartialEq, Eq, Structural)]
pub enum Presence {
    Present,
    Absent,
    /// The store failed or did not answer in time.
    Unavailable,
}

/// A store's contents: for each email on record, the password hash on record.
pub type Accounts = Map<Seq<char>, Seq<char>>;

/// `answer` is what a store that holds `accounts` says in truth when asked for
/// the account of `email`.
pub open spec fn true_lookup(accounts: Accounts, email: Seq<char>, answer: Lookup) -> bool {
    match answer {
        Lookup::Found(user) => accounts.contains_key(email) && user.email@ == email
            && user.password_hash@ == accounts[email],
        Lookup::Missing => !accounts.contains_key(email),
        Lookup::Unavailable => false,
    }
}

/// `answer` is what a store that holds `before` says in truth when asked to put
/// `email` on record with `password_hash`, and `after` is what it holds then.
/// At most one account has a given email: a second one is refused.
pub open spec fn true_insertion(
    before: Accounts,
    email: Seq<char>,
    password_hash: Seq<char>,
    answer: Insertion,
    after: Accounts,
) -> bool {
    match answer {
        Insertion::Created => !before.contains_key(email) && after == before.insert(
            email,
            password_hash,
        ),
        Insertion::Duplicate => before.contains_key(email) && after == before,
        Insertion::Unavailable => false,
    }
}

/// `answer` is what a store that holds `accounts` says in truth when asked
/// whether `email` is on record.
pub open spec fn true_presence(accounts: Accounts, email: Seq<char>, answer: Presence) -> bool {
    match answer {
        Presence::Present => accounts.contains_key(email),
        Presence::Absent => !accounts.contains_key(email),
        Presence::Unavailable => false,
    }
}

} // verus!
