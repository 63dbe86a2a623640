//! ASCII bytes and the text they spell.
//!
//! Header keys are handled as bytes while they are checked and re-cased, and
//! as text once they are stored. This module holds the byte classes, the case
//! mapping of single bytes, and the bridge between a sequence of ASCII bytes
//! and the string with exactly those bytes.

use vstd::prelude::*;
use vstd::slice::slice_to_vec;
use vstd::utf8::*;

verus! {

/// The distance between an ASCII upper-case letter and its lower-case form.
pub const CASE_OFFSET: u8 = 0x20;

/// `b` is one of `0`..`9`.
pub open spec fn is_digit(b: u8) -> bool {
    '0' as u8 <= b <= '9' as u8
}

/// `b` is one of `a`..`z`.
pub open spec fn is_lower(b: u8) -> bool {
    'a' as u8 <= b <= 'z' as u8
}

/// `b` is one of `A`..`Z`.
pub open spec fn is_upper(b: u8) -> bool {
    'A' as u8 <= b <= 'Z' as u8
}

/// `b` is an ASCII byte, that is, below 128.
pub open spec fn is_ascii(b: u8) -> bool {
    b < 0x80
}

/// Every byte of `bytes` is an ASCII byte.
pub open spec fn all_ascii(bytes: Seq<u8>) -> bool {
    forall|i: int| 0 <= i < bytes.len() ==> is_ascii(#[trigger] bytes[i])
}

/// The upper-case form of a lower-case letter; any other byte is itself.
pub open spec fn upper_of(b: u8) -> u8 {
    if is_lower(b) {
        (b - CASE_OFFSET) as u8
    } else {
        b
    }
}

/// The lower-case form of an upper-case letter; any other byte is itself.
pub open spec fn lower_of(b: u8) -> u8 {
    if is_upper(b) {
        (b + CASE_OFFSET) as u8
    } else {
        b
    }
}

/// The characters that the bytes of `bytes` stand for, one character per byte.
pub open spec fn ascii_text(bytes: Seq<u8>) -> Seq<char> {
    Seq::new(bytes.len(), |i: int| bytes[i] as char)
}

/// Whether `b` is a digit.
pub fn is_ascii_digit(b: u8) -> (r: bool)
    ensures
        r == is_digit(b),
{
    '0' as u8 <= b && b <= '9' as u8
}

/// Whether `b` is a lower-case letter.
pub fn is_ascii_lowercase(b: u8) -> (r: bool)
    ensures
        r == is_lower(b),
{
    'a' as u8 <= b && b <= 'z' as u8
}

/// Whether `b` is an upper-case letter.
pub fn is_ascii_uppercase(b: u8) -> (r: bool)
    ensures
        r == is_upper(b),
{
    'A' as u8 <= b && b <= 'Z' as u8
}

/// `b` in upper case.
pub fn to_ascii_uppercase(b: u8) -> (r: u8)
    ensures
        r == upper_of(b),
{
    if is_ascii_lowercase(b) {
        b - CASE_OFFSET
    } else {
        b
    }
}

/// `b` in lower case.
pub fn to_ascii_lowercase(b: u8) -> (r: u8)
    ensures
        r == lower_of(b),
{
    if is_ascii_uppercase(b) {
        b + CASE_OFFSET
    } else {
        b
    }
}

/// ASCII bytes are valid UTF-8, and the text they encode is `ascii_text` of
/// them: one character per byte, with the byte's value.
pub proof fn lemma_ascii_bytes_are_text(bytes: Seq<u8>)
    requires
        all_ascii(bytes),
    ensures
        valid_utf8(bytes),
        encode_utf8(ascii_text(bytes)) == bytes,
        decode_utf8(bytes) == ascii_text(bytes),
        is_ascii_chars(ascii_text(bytes)),
{
    let text = ascii_text(bytes);
    is_ascii_chars_encode_utf8(text);
    assert(encode_utf8(text) =~= bytes);
    encode_utf8_valid_utf8(text);
    encode_utf8_decode_utf8(text);
}

/// A text whose UTF-8 encoding holds ASCII bytes only is the `ascii_text` of
/// that encoding.
pub proof fn lemma_text_of_ascii_encoding(text: Seq<char>)
    requires
        all_ascii(encode_utf8(text)),
    ensures
        ascii_text(encode_utf8(text)) == text,
{
    lemma_ascii_bytes_are_text(encode_utf8(text));
    encode_utf8_decode_utf8(text);
}

/// `String::from_utf8` of the standard library, with its error dropped.
///
/// It checks that `bytes` is valid UTF-8 and, if so, takes the vector over as
/// the string's buffer: the answer is `Some` exactly for valid UTF-8, and the
/// string's encoding is then `bytes` itself.
#[verifier::external_body]
fn string_from_utf8(bytes: Vec<u8>) -> (text: Option<String>)
    ensures
        text is Some <==> valid_utf8(bytes@),
        text is Some ==> encode_utf8(text->0@) == bytes@,
{
    String::from_utf8(bytes).ok()
}

/// The string spelled by ASCII bytes. ASCII bytes are valid UTF-8, so the
/// conversion cannot fail.
pub fn ascii_string(bytes: &[u8]) -> (text: String)
    requires
        all_ascii(bytes@),
    ensures
        text@ == ascii_text(bytes@),
{
    proof {
        lemma_ascii_bytes_are_text(bytes@);
    }
    match string_from_utf8(slice_to_vec(bytes)) {
        Some(text) => {
            proof {
                encode_utf8_decode_utf8(text@);
            }
            text
        },
        None => vstd::pervasive::unreached(),
    }
}

} // verus!
