//! Lower-case hexadecimal text, as bytes: the encoding of every token segment.

use vstd::prelude::*;

verus! {

/// The digit that stands for the value `v`, for `0 <= v < 16`.
pub open spec fn digit_of(v: int) -> u8 {
    if v < 10 {
        (0x30 + v) as u8
    } else {
        (0x57 + v) as u8
    }
}

/// `c` is one of `0`..`9`, `a`..`f`.
pub open spec fn is_digit(c: u8) -> bool {
    (0x30 <= c && c <= 0x39) || (0x61 <= c && c <= 0x66)
}

/// The value of the digit `c`.
pub open spec fn value_of(c: u8) -> int {
    if c <= 0x39 {
        c - 0x30
    } else {
        c - 0x57
    }
}

/// Two digits for each byte, the high half first.
pub open spec fn hex_text(bytes: Seq<u8>) -> Seq<u8> {
    Seq::new(
        2 * bytes.len(),
        |i: int|
            if i % 2 == 0 {
                digit_of(bytes[i / 2] as int / 16)
            } else {
                digit_of(bytes[i / 2] as int % 16)
            },
    )
}

/// `text` is an even number of digits.
pub open spec fn is_hex_text(text: Seq<u8>) -> bool {
    &&& text.len() % 2 == 0
    &&& forall|i: int| 0 <= i < text.len() ==> is_digit(#[trigger] text[i])
}

/// The bytes that `text` stands for, where `is_hex_text(text)`.
pub open spec fn hex_bytes(text: Seq<u8>) -> Seq<u8> {
    Seq::new(
        text.len() / 2,
        |i: int| (16 * value_of(text[2 * i]) + value_of(text[2 * i + 1])) as u8,
    )
}

/// Every encoding is hexadecimal text.
pub proof fn lemma_hex_text_is_hex(bytes: Seq<u8>)
    ensures
        is_hex_text(hex_text(bytes)),
        hex_text(bytes).len() == 2 * bytes.len(),
{
}

/// Decoding undoes encoding.
pub proof fn lemma_hex_bytes_of_text(bytes: Seq<u8>)
    ensures
        hex_bytes(hex_text(bytes)) == bytes,
{
    let text = hex_text(bytes);
    assert forall|i: int| 0 <= i < bytes.len() implies hex_bytes(text)[i] == bytes[i] by {
        assert((2 * i) % 2 == 0 && (2 * i) / 2 == i);
        assert((2 * i + 1) % 2 == 1 && (2 * i + 1) / 2 == i);
    }
    assert(hex_bytes(text) =~= bytes);
}

/// Encoding undoes decoding: hexadecimal text has one spelling.
pub proof fn lemma_hex_text_of_bytes(text: Seq<u8>)
    requires
        is_hex_text(text),
    ensures
        hex_text(hex_bytes(text)) == text,
{
    let bytes = hex_bytes(text);
    assert forall|i: int| 0 <= i < text.len() implies hex_text(bytes)[i] == text[i] by {
        let k = i / 2;
        assert(is_digit(text[2 * k]) && is_digit(text[2 * k + 1]));
    }
    assert(hex_text(bytes) =~= text);
}

/// Two byte strings with one encoding are one byte string.
pub proof fn lemma_hex_text_injective(a: Seq<u8>, b: Seq<u8>)
    requires
        hex_text(a) == hex_text(b),
    ensures
        a == b,
{
    lemma_hex_bytes_of_text(a);
    lemma_hex_bytes_of_text(b);
}

/// The digit for `v`.
fn digit(v: u8) -> (c: u8)
    requires
        v < 16,
    ensures
        c == digit_of(v as int),
{
    if v < 10 {
        0x30 + v
    } else {
        0x57 + v
    }
}

/// The value of `c`, if it is a digit.
fn digit_value(c: u8) -> (v: Option<u8>)
    ensures
        v is Some <==> is_digit(c),
        v is Some ==> v.unwrap() as int == value_of(c) && v.unwrap() < 16,
{
    if 0x30 <= c && c <= 0x39 {
        Some(c - 0x30)
    } else if 0x61 <= c && c <= 0x66 {
        Some(c - 0x57)
    } else {
        None
    }
}

/// Appends the hexadecimal text of `bytes` to `out`.
pub fn push_hex(out: &mut Vec<u8>, bytes: &[u8])
    ensures
        final(out)@ == old(out)@ + hex_text(bytes@),
{
    let ghost before = out@;
    let mut i: usize = 0;
    while i < bytes.len()
        invariant
            i <= bytes.len(),
            out@ == before + hex_text(bytes@.subrange(0, i as int)),
        decreases bytes.len() - i,
    {
        let b: u8 = bytes[i];
        out.push(digit(b / 16));
        out.push(digit(b % 16));
        proof {
            let prev = bytes@.subrange(0, i as int);
            let next = bytes@.subrange(0, i + 1);
            assert(hex_text(next) =~= hex_text(prev).push(digit_of(b as int / 16)).push(
                digit_of(b as int % 16),
            ));
        }
        i += 1;
    }
    assert(bytes@.subrange(0, i as int) =~= bytes@);
}

/// The hexadecimal text of `bytes`.
pub fn to_hex(bytes: &[u8]) -> (text: Vec<u8>)
    ensures
        text@ == hex_text(bytes@),
{
    let mut text: Vec<u8> = Vec::new();
    push_hex(&mut text, bytes);
    text
}

/// The bytes that `text` stands for, or `None` where it is not hexadecimal text.
pub fn from_hex(text: &[u8]) -> (bytes: Option<Vec<u8>>)
    ensures
        bytes is Some <==> is_hex_text(text@),
        bytes is Some ==> bytes.unwrap()@ == hex_bytes(text@),
{
    if text.len() % 2 != 0 {
        return None;
    }
    let mut bytes: Vec<u8> = Vec::new();
    let mut i: usize = 0;
    while i < text.len()
        invariant
            i <= text.len(),
            i % 2 == 0,
            text.len() % 2 == 0,
            bytes@.len() == i / 2,
            forall|j: int| 0 <= j < i ==> is_digit(#[trigger] text@[j]),
            forall|k: int|
                0 <= k < bytes@.len() ==> #[trigger] bytes@[k] == hex_bytes(text@)[k],
        decreases text.len() - i,
    {
        let high: u8 = match digit_value(text[i]) {
            Some(v) => v,
            None => {
                return None;
            },
        };
        let low: u8 = match digit_value(text[i + 1]) {
            Some(v) => v,
            None => {
                return None;
            },
        };
        bytes.push(16 * high + low);
        i += 2;
    }
    assert(bytes@ =~= hex_bytes(text@));
    Some(bytes)
}

} // verus!
