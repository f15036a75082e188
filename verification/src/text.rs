//! Between bytes and strings.

use vstd::prelude::*;
use vstd::utf8::{
    decode_utf8, decode_utf8_encode_utf8, encode_utf8, partial_valid_utf8_extend_ascii_block,
    valid_utf8,
};

verus! {

/// Calls `String::from_utf8`. Believed, not proved: it gives a string exactly
/// where the bytes are valid UTF-8, and that string holds the characters that
/// the bytes encode.
#[verifier::external_body]
pub(crate) fn text_of(bytes: Vec<u8>) -> (text: Option<String>)
    ensures
        text is Some <==> valid_utf8(bytes@),
        text is Some ==> text.unwrap()@ == decode_utf8(bytes@),
{
    match String::from_utf8(bytes) {
        Ok(text) => Some(text),
        Err(_) => None,
    }
}

/// Bytes under 0x80 are valid UTF-8.
pub(crate) proof fn lemma_ascii_is_utf8(bytes: Seq<u8>)
    requires
        forall|i: int| 0 <= i < bytes.len() ==> #[trigger] bytes[i] < 0x80,
    ensures
        valid_utf8(bytes),
{
    assert(bytes.subrange(0, 0) =~= Seq::<u8>::empty());
    partial_valid_utf8_extend_ascii_block(bytes, 0, bytes.len() as int);
    assert(bytes.subrange(0, bytes.len() as int) =~= bytes);
}

/// The string made of the ASCII bytes `bytes`.
pub(crate) fn ascii_text(bytes: Vec<u8>) -> (text: String)
    requires
        forall|i: int| 0 <= i < bytes@.len() ==> #[trigger] bytes@[i] < 0x80,
    ensures
        encode_utf8(text@) == bytes@,
{
    let ghost given = bytes@;
    proof {
        lemma_ascii_is_utf8(given);
        decode_utf8_encode_utf8(given);
    }
    match text_of(bytes) {
        Some(text) => text,
        None => String::new(),
    }
}

} // verus!
