//! Message authentication: the tag that signs a token, and the comparison that
//! checks one.

use hmac::{Hmac, Mac};
use sha2::Sha256;
use vstd::prelude::*;

verus! {

/// The bytes of a tag.
pub const TAG_LEN: usize = 32;

/// The HMAC-SHA-256 tag of `message` under `key`. Nothing is said here of the
/// tag's bytes: only that they depend on the key and the message alone.
pub uninterp spec fn hmac_sha256(key: Seq<u8>, message: Seq<u8>) -> Seq<u8>;

/// Calls `Hmac::<Sha256>::new_from_slice`, `update` and `finalize` of the `hmac`
/// crate. Believed, not proved: a tag always comes back, since HMAC takes a key
/// of any length and `new_from_slice` has no failing path for it; the tag is
/// `hmac_sha256` of the key and the message, and it has `TAG_LEN` bytes, the
/// size of a SHA-256 digest.
#[verifier::external_body]
pub(crate) fn compute_tag(key: &[u8], message: &[u8]) -> (made: Option<Vec<u8>>)
    ensures
        made is Some,
        made matches Some(bytes) ==> bytes@ == hmac_sha256(key@, message@),
        made matches Some(bytes) ==> bytes@.len() == TAG_LEN,
{
    match Hmac::<Sha256>::new_from_slice(key) {
        Ok(mut mac) => {
            mac.update(message);
            Some(mac.finalize().into_bytes().to_vec())
        },
        Err(_) => None,
    }
}

/// The tag of `message` under `key`.
pub fn tag(key: &[u8], message: &[u8]) -> (bytes: Vec<u8>)
    ensures
        bytes@ == hmac_sha256(key@, message@),
        bytes@.len() == TAG_LEN,
{
    match compute_tag(key, message) {
        Some(bytes) => bytes,
        None => Vec::new(),
    }
}

/// Whether `a` and `b` hold the same bytes. Two byte strings of one length are
/// read to the end, whatever the place of their first difference.
pub fn same_bytes(a: &[u8], b: &[u8]) -> (same: bool)
    ensures
        same == (a@ == b@),
{
    if a.len() != b.len() {
        return false;
    }
    let mut diff: u8 = 0;
    let mut i: usize = 0;
    while i < a.len()
        invariant
            i <= a.len(),
            a.len() == b.len(),
            diff == 0 <==> (forall|j: int| 0 <= j < i ==> a@[j] == b@[j]),
        decreases a.len() - i,
    {
        let x: u8 = a[i];
        let y: u8 = b[i];
        let next: u8 = diff | (x ^ y);
        assert(next == 0 <==> (diff == 0 && x == y)) by (bit_vector)
            requires
                next == diff | (x ^ y),
        ;
        diff = next;
        i += 1;
    }
    assert(diff == 0 <==> a@ =~= b@);
    diff == 0
}

} // verus!
