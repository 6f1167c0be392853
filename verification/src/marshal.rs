//! Text on its way across the native boundary.
//!
//! On the native side a string is a run of bytes that ends at the first zero
//! byte. This module deals with the bytes before that terminator: it encodes
//! text that can be sent, and decodes whatever bytes come back.

use vstd::prelude::*;
use vstd::utf8::*;

verus! {

/// Text that a native string can carry whole: it holds no NUL character.
pub open spec fn c_safe(text: Seq<char>) -> bool {
    forall|i: int| 0 <= i < text.len() ==> text[i] != '\0'
}

/// Bytes that hold no zero, so that a terminator appended to them is the
/// first zero a native reader meets.
pub open spec fn zero_free(bytes: Seq<u8>) -> bool {
    forall|i: int| 0 <= i < bytes.len() ==> bytes[i] != 0
}

/// What `String::from_utf8_lossy` makes of bytes that are not valid UTF-8.
pub uninterp spec fn lossy_text(bytes: Seq<u8>) -> Seq<char>;

/// The text that bytes from the native side are read as: the text they
/// encode where they are valid UTF-8, and a repaired reading otherwise.
pub open spec fn text_of(bytes: Seq<u8>) -> Seq<char> {
    if valid_utf8(bytes) {
        decode_utf8(bytes)
    } else {
        lossy_text(bytes)
    }
}

proof fn lemma_width_1_zero(s: u32)
    by (bit_vector)
    requires
        has_width_1_encoding(s),
    ensures
        leading_byte_width_1(s) == 0 <==> s == 0,
{
}

proof fn lemma_leading_bytes_nonzero(s: u32)
    by (bit_vector)
    ensures
        leading_byte_width_2(s) != 0,
        leading_byte_width_3(s) != 0,
        leading_byte_width_4(s) != 0,
{
}

proof fn lemma_continuation_bytes_nonzero(s: u32)
    by (bit_vector)
    ensures
        last_continuation_byte(s) != 0,
        second_last_continuation_byte(s) != 0,
        third_last_continuation_byte(s) != 0,
{
}

/// The encoding of one character holds a zero byte only for NUL.
proof fn lemma_scalar_zero_free(c: char)
    ensures
        zero_free(encode_scalar(c as u32)) <==> c != '\0',
{
    let s = c as u32;
    char_is_scalar(c);
    lemma_leading_bytes_nonzero(s);
    lemma_continuation_bytes_nonzero(s);
    if has_width_1_encoding(s) {
        lemma_width_1_zero(s);
        assert(encode_scalar(s)[0] == leading_byte_width_1(s));
    }
}

/// Text is free of NUL exactly when its UTF-8 encoding is free of zero bytes.
pub proof fn lemma_c_safe_bytes(text: Seq<char>)
    ensures
        c_safe(text) <==> zero_free(encode_utf8(text)),
    decreases text.len(),
{
    if text.len() > 0 {
        let head = encode_scalar(text[0] as u32);
        let rest = text.drop_first();
        let tail = encode_utf8(rest);
        lemma_scalar_zero_free(text[0]);
        lemma_c_safe_bytes(rest);
        assert(encode_utf8(text) == head + tail);
        if c_safe(text) {
            assert forall|i: int| 0 <= i < rest.len() implies rest[i] != '\0' by {
                assert(rest[i] == text[i + 1]);
            }
        }
        if zero_free(head + tail) {
            assert(zero_free(head)) by {
                assert forall|i: int| 0 <= i < head.len() implies head[i] != 0 by {
                    assert(head[i] == (head + tail)[i]);
                }
            }
            assert(zero_free(tail)) by {
                assert forall|i: int| 0 <= i < tail.len() implies tail[i] != 0 by {
                    assert(tail[i] == (head + tail)[head.len() + i]);
                }
            }
            assert forall|i: int| 0 <= i < text.len() implies text[i] != '\0' by {
                if i > 0 {
                    assert(text[i] == rest[i - 1]);
                }
            }
        }
    }
}

/// Sending text and reading the same bytes back gives the text again.
pub proof fn lemma_text_round_trip(text: Seq<char>)
    ensures
        text_of(encode_utf8(text)) == text,
{
    encode_utf8_valid_utf8(text);
    encode_utf8_decode_utf8(text);
}

/// Calls `String::from_utf8_lossy` and takes the result as an owned string.
///
/// Bytes that are valid UTF-8 come back as the text they encode. For other
/// bytes the result is only named: std repairs them in a way that is the same
/// for the same bytes, and that is not written out here.
#[verifier::external_body]
fn decode_lossy(bytes: &Vec<u8>) -> (text: String)
    ensures
        valid_utf8(bytes@) ==> text@ == decode_utf8(bytes@),
        !valid_utf8(bytes@) ==> text@ == lossy_text(bytes@),
{
    String::from_utf8_lossy(bytes).into_owned()
}

/// Reads bytes that came from the native side as text.
pub fn text_from_native(bytes: &Vec<u8>) -> (text: String)
    ensures
        text@ == text_of(bytes@),
{
    decode_lossy(bytes)
}

/// Whether `text` can be sent as a native string without being cut short.
pub fn is_c_safe(text: &str) -> (safe: bool)
    ensures
        safe == c_safe(text@),
{
    let bytes = text.as_bytes();
    let mut i: usize = 0;
    while i < bytes.len()
        invariant
            i <= bytes@.len(),
            bytes@ == encode_utf8(text@),
            forall|j: int| 0 <= j < i ==> bytes@[j] != 0,
        decreases bytes@.len() - i,
    {
        if bytes[i] == 0 {
            proof {
                lemma_c_safe_bytes(text@);
            }
            return false;
        }
        i += 1;
    }
    proof {
        lemma_c_safe_bytes(text@);
    }
    true
}

/// The bytes that carry `text` to the native side, each call in a buffer of
/// its own: the UTF-8 encoding, for the caller to terminate.
pub fn text_to_native(text: &str) -> (bytes: Vec<u8>)
    requires
        c_safe(text@),
    ensures
        bytes@ == encode_utf8(text@),
        zero_free(bytes@),
{
    proof {
        lemma_c_safe_bytes(text@);
    }
    text.as_bytes_vec()
}

} // verus!
