//! The password hasher: Argon2 with a fresh salt for each hash, and a
//! verification that never fails on a malformed record.

use crate::error::AuthError;
use crate::mac::same_bytes;
use argon2::password_hash::rand_core::{OsRng, RngCore};
use argon2::password_hash::{PasswordHash, PasswordHasher, PasswordVerifier, SaltString};
use argon2::Argon2;
use vstd::prelude::*;
use vstd::utf8::encode_utf8;

verus! {

/// The bytes of salt drawn for each hash.
pub const SALT_LEN: usize = 16;

/// The fewest bytes of salt that Argon2 takes.
pub const MIN_SALT_LEN: usize = 8;

/// The most lanes that Argon2 takes.
pub const MAX_LANES: u64 = 0xff_ffff;

/// The record that Argon2, with its default parameters, makes of `plaintext` and
/// `salt`, or `None` where it refuses them. The record names the algorithm, its
/// parameters, the salt and the digest.
pub uninterp spec fn argon2_record(plaintext: Seq<char>, salt: Seq<u8>) -> Option<Seq<char>>;

/// Whether Argon2 accepts `plaintext` for the record `stored_hash`. A string that
/// is no record accepts nothing.
pub uninterp spec fn argon2_accepts(plaintext: Seq<char>, stored_hash: Seq<char>) -> bool;

/// The salt that the record `record` names, or `None` where the string is no
/// record or names none.
pub uninterp spec fn argon2_salt_of(record: Seq<char>) -> Option<Seq<u8>>;

/// The error of the `password-hash` crate, carried from the hashing call to the
/// place where it becomes `HashingFailed`. Nothing is read from it.
#[verifier::external_type_specification]
#[verifier::external_body]
pub struct ExHashError(argon2::password_hash::Error);

/// The error of the `rand_core` crate, carried from the drawing of the salt to
/// the place where it becomes `HashingFailed`. Nothing is read from it.
#[verifier::external_type_specification]
#[verifier::external_body]
pub struct ExRandomError(argon2::password_hash::rand_core::Error);

/// `c` is one of `0`..`9`.
pub open spec fn is_decimal(c: u8) -> bool {
    0x30 <= c && c <= 0x39
}

/// The number that the decimal digits of `s` from `i` on spell, up to the first
/// byte that is no digit, `before` being what the digits before `i` spell.
pub open spec fn number_at(s: Seq<u8>, i: int, before: nat) -> nat
    decreases s.len() - i,
{
    if 0 <= i < s.len() && is_decimal(s[i]) {
        number_at(s, i + 1, before * 10 + (s[i] - 0x30) as nat)
    } else {
        before
    }
}

/// The two bytes of `s` at `i` are `p=`, which in a record stand before the
/// number of lanes.
pub open spec fn names_lanes(s: Seq<u8>, i: int) -> bool {
    0 <= i && i + 1 < s.len() && s[i] == 0x70 && s[i + 1] == 0x3d
}

/// No `p=` in `record` stands before a number above `MAX_LANES`. Argon2 refuses
/// a record with more lanes, and on some of them it panics before it does.
pub open spec fn lanes_fit(record: Seq<u8>) -> bool {
    forall|i: int| #[trigger] names_lanes(record, i) ==> number_at(record, i + 2, 0) <= MAX_LANES
}

/// Whether the record `stored_hash` accepts `plaintext`: its lanes fit, and
/// Argon2 accepts the password for it.
pub open spec fn password_accepted(plaintext: Seq<char>, stored_hash: Seq<char>) -> bool {
    lanes_fit(encode_utf8(stored_hash)) && argon2_accepts(plaintext, stored_hash)
}

/// `record` is fit to be stored as the record of a password under `salt`: its
/// lanes fit, and it names `salt` as its salt.
pub open spec fn sound_record(record: Seq<char>, salt: Seq<u8>) -> bool {
    lanes_fit(encode_utf8(record)) && argon2_salt_of(record) == Some(salt)
}

/// The record of `plaintext` under `salt`, or `None` where the salt is shorter
/// than `MIN_SALT_LEN`, Argon2 refuses the two, or what it made is not sound.
pub open spec fn salted_record(plaintext: Seq<char>, salt: Seq<u8>) -> Option<Seq<char>> {
    if salt.len() < MIN_SALT_LEN {
        None
    } else {
        match argon2_record(plaintext, salt) {
            Some(record) => if sound_record(record, salt) {
                Some(record)
            } else {
                None
            },
            None => None,
        }
    }
}

/// Digits only add to a number.
proof fn lemma_number_grows(s: Seq<u8>, i: int, before: nat)
    ensures
        number_at(s, i, before) >= before,
    decreases s.len() - i,
{
    if 0 <= i < s.len() && is_decimal(s[i]) {
        lemma_number_grows(s, i + 1, before * 10 + (s[i] - 0x30) as nat);
    }
}

/// Calls `OsRng.try_fill_bytes` of `rand_core` on `count` bytes. Nothing is
/// claimed of the bytes but their number: they differ from call to call.
#[verifier::external_body]
fn fresh_bytes(count: usize) -> (drawn: Result<
    Vec<u8>,
    argon2::password_hash::rand_core::Error,
>)
    ensures
        drawn matches Ok(bytes) ==> bytes@.len() == count,
{
    let mut bytes = vec![0u8; count];
    OsRng.try_fill_bytes(&mut bytes).map(|_| bytes)
}

/// Calls `SaltString::encode_b64` of `password-hash` and `hash_password` of
/// `Argon2::default()`. Believed, not proved: the record depends on the password
/// and the salt alone, and a record that was made is accepted for the password
/// it was made of. A salt under three bytes makes `password-hash` panic, so
/// callers keep to the salts that Argon2 itself takes.
#[verifier::external_body]
fn argon2_hash(plaintext: &str, salt: &[u8]) -> (record: Result<
    String,
    argon2::password_hash::Error,
>)
    requires
        salt@.len() >= MIN_SALT_LEN,
    ensures
        match record {
            Ok(text) => argon2_record(plaintext@, salt@) == Some(text@) && argon2_accepts(
                plaintext@,
                text@,
            ),
            Err(_) => argon2_record(plaintext@, salt@) is None,
        },
{
    let salt = SaltString::encode_b64(salt)?;
    let record = Argon2::default().hash_password(plaintext.as_bytes(), &salt)?;
    Ok(record.to_string())
}

/// Calls `PasswordHash::new` of `password-hash` and `verify_password` of
/// `Argon2::default()`. Believed, not proved: the answer depends on the two
/// strings alone. A string that does not parse as a record gives `false`. A
/// record that gives its lanes as 2^29 or more makes `argon2` overflow where it
/// holds the memory against eight times the lanes, so callers keep to records
/// whose lanes fit. Time and memory are as the record's parameters ask.
#[verifier::external_body]
fn argon2_verify(plaintext: &str, stored_hash: &str) -> (accepted: bool)
    requires
        lanes_fit(encode_utf8(stored_hash@)),
    ensures
        accepted == argon2_accepts(plaintext@, stored_hash@),
{
    match PasswordHash::new(stored_hash) {
        Ok(record) => Argon2::default().verify_password(plaintext.as_bytes(), &record).is_ok(),
        Err(_) => false,
    }
}

/// Calls `PasswordHash::new` and `Salt::decode_b64` of `password-hash`.
/// Believed, not proved: the salt read depends on the record alone.
#[verifier::external_body]
fn record_salt(record: &str) -> (salt: Option<Vec<u8>>)
    ensures
        match salt {
            Some(bytes) => argon2_salt_of(record@) == Some(bytes@),
            None => argon2_salt_of(record@) is None,
        },
{
    let mut buffer = [0u8; 64];
    let parsed = PasswordHash::new(record).ok()?;
    parsed.salt?.decode_b64(&mut buffer).ok().map(|bytes| bytes.to_vec())
}

/// Whether the digits of `s` from `start` on spell a number of lanes that fits.
fn number_fits(s: &[u8], start: usize) -> (fits: bool)
    requires
        start <= s@.len(),
    ensures
        fits == (number_at(s@, start as int, 0) <= MAX_LANES),
{
    let mut i: usize = start;
    let mut value: u64 = 0;
    while i < s.len() && 0x30 <= s[i] && s[i] <= 0x39
        invariant
            start <= i <= s@.len(),
            value <= MAX_LANES,
            number_at(s@, start as int, 0) == number_at(s@, i as int, value as nat),
        decreases s@.len() - i,
    {
        let next: u64 = value * 10 + (s[i] - 0x30) as u64;
        if next > MAX_LANES {
            proof {
                lemma_number_grows(s@, i + 1, next as nat);
            }
            return false;
        }
        value = next;
        i += 1;
    }
    true
}

/// Whether the lanes that `record` names fit: no `p=` in it stands before a
/// number above `MAX_LANES`.
pub fn lanes_in_range(record: &[u8]) -> (fits: bool)
    ensures
        fits == lanes_fit(record@),
{
    if record.len() < 2 {
        return true;
    }
    let last: usize = record.len() - 1;
    let mut i: usize = 0;
    while i < last
        invariant
            i <= last,
            last + 1 == record@.len(),
            forall|j: int|
                0 <= j < i && #[trigger] names_lanes(record@, j) ==> number_at(record@, j + 2, 0)
                    <= MAX_LANES,
        decreases last - i,
    {
        if record[i] == 0x70 && record[i + 1] == 0x3d {
            if !number_fits(record, i + 2) {
                assert(names_lanes(record@, i as int));
                return false;
            }
        }
        i += 1;
    }
    true
}

/// The record of `plaintext` under the salt `salt`: the same for the same two,
/// and accepted for `plaintext`. A salt shorter than `MIN_SALT_LEN` is refused
/// before anything is computed, and a record is handed out only where it names
/// `salt` as its salt and its lanes fit.
pub fn hash_with_salt(plaintext: &str, salt: &[u8]) -> (r: Result<String, AuthError>)
    ensures
        match r {
            Ok(text) => salted_record(plaintext@, salt@) == Some(text@) && password_accepted(
                plaintext@,
                text@,
            ),
            Err(e) => e == AuthError::HashingFailed && salted_record(plaintext@, salt@) is None,
        },
{
    if salt.len() < MIN_SALT_LEN {
        return Err(AuthError::HashingFailed);
    }
    let text: String = match argon2_hash(plaintext, salt) {
        Ok(text) => text,
        Err(_) => {
            return Err(AuthError::HashingFailed);
        },
    };
    let fits: bool = lanes_in_range(text.as_str().as_bytes());
    let named: bool = match record_salt(text.as_str()) {
        Some(found) => same_bytes(found.as_slice(), salt),
        None => false,
    };
    if fits && named {
        Ok(text)
    } else {
        Err(AuthError::HashingFailed)
    }
}

/// A record of `plaintext` under `SALT_LEN` bytes of salt drawn for this call.
/// Whatever the salt, the record is accepted for `plaintext`; the only failure
/// is `HashingFailed`, and no part of a record comes with it.
pub fn hash_password(plaintext: &str) -> (r: Result<String, AuthError>)
    ensures
        match r {
            Ok(text) => password_accepted(plaintext@, text@) && exists|salt: Seq<u8>|
                salt.len() == SALT_LEN && #[trigger] salted_record(plaintext@, salt) == Some(
                    text@,
                ),
            Err(e) => e == AuthError::HashingFailed,
        },
{
    match fresh_bytes(SALT_LEN) {
        Ok(salt) => hash_with_salt(plaintext, salt.as_slice()),
        Err(_) => Err(AuthError::HashingFailed),
    }
}

/// Whether `plaintext` is the password of the record `stored_hash`. A malformed
/// record gives `false`, never a failure, and so does one that names more lanes
/// than Argon2 takes.
pub fn verify_password(plaintext: &str, stored_hash: &str) -> (accepted: bool)
    ensures
        accepted == password_accepted(plaintext@, stored_hash@),
{
    if !lanes_in_range(stored_hash.as_bytes()) {
        return false;
    }
    argon2_verify(plaintext, stored_hash)
}

/// Two records of one password under two different salts are two different
/// strings.
pub proof fn law_distinct_salts_give_distinct_records(
    plaintext: Seq<char>,
    first_salt: Seq<u8>,
    second_salt: Seq<u8>,
)
    requires
        first_salt != second_salt,
        salted_record(plaintext, first_salt) is Some,
        salted_record(plaintext, second_salt) is Some,
    ensures
        salted_record(plaintext, first_salt).unwrap() != salted_record(
            plaintext,
            second_salt,
        ).unwrap(),
{
}

} // verus!
