//! Credential and token lifecycle of a small identity service: password
//! hashing, signed expiring tokens, registration, login and token refresh.
//!
//! The account store is not part of this crate. Each operation that needs it is
//! cut where it would touch the store: the caller performs the store call and
//! hands the answer to the next function as a plain value.

pub mod credential;
pub mod error;
pub mod hex;
pub mod mac;
pub mod models;
pub mod password;
pub mod refresh;
pub mod store;
mod text;
pub mod token;
