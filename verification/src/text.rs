//! Text and bytes: comparing, joining, and passing from one to the other.

use vstd::prelude::*;
use vstd::string::*;
use vstd::utf8::*;

verus! {

/// Whether two byte strings are the same.
pub fn same_bytes(a: &[u8], b: &[u8]) -> (same: bool)
    ensures
        same == (a@ == b@),
{
    if a.len() != b.len() {
        return false;
    }
    let mut i: usize = 0;
    while i < a.len()
        invariant
            a.len() == b.len(),
            i <= a.len(),
            a@.take(i as int) == b@.take(i as int),
        decreases a.len() - i,
    {
        if a[i] != b[i] {
            return false;
        }
        assert(a@.take(i + 1) =~= a@.take(i as int).push(a@[i as int]));
        assert(b@.take(i + 1) =~= b@.take(i as int).push(b@[i as int]));
        i = i + 1;
    }
    assert(a@.take(i as int) =~= a@);
    assert(b@.take(i as int) =~= b@);
    true
}

/// Whether two texts are the same, character for character.
pub fn same_text(a: &str, b: &str) -> (same: bool)
    ensures
        same == (a@ == b@),
{
    proof {
        encode_utf8_decode_utf8(a@);
        encode_utf8_decode_utf8(b@);
    }
    same_bytes(a.as_bytes(), b.as_bytes())
}

/// `head` followed by `tail`.
pub fn join(head: &str, tail: &str) -> (joined: String)
    ensures
        joined@ == head@ + tail@,
{
    let mut joined = String::from_str(head);
    joined.append(tail);
    joined
}

/// The UTF-8 bytes of `text`.
pub fn text_bytes(text: &str) -> (bytes: Vec<u8>)
    ensures
        bytes@ == encode_utf8(text@),
{
    text.as_bytes_vec()
}

/// A copy of the bytes.
pub fn copy_bytes(bytes: &Vec<u8>) -> (copy: Vec<u8>)
    ensures
        copy@ == bytes@,
{
    bytes.clone()
}

/// The text that `String::from_utf8_lossy` makes of `bytes`.
pub uninterp spec fn lossy_text(bytes: Seq<u8>) -> Seq<char>;

/// Bytes read as text: bytes that are valid UTF-8 decode as they stand,
/// and others become what `String::from_utf8_lossy` makes of them.
pub open spec fn read_text(bytes: Seq<u8>) -> Seq<char> {
    if valid_utf8(bytes) {
        decode_utf8(bytes)
    } else {
        lossy_text(bytes)
    }
}

/// Reads bytes as text with `String::from_utf8_lossy` of the standard
/// library. Assumed, not proved: the result depends on the bytes alone, and
/// bytes that are valid UTF-8 are decoded as they stand. What becomes of
/// bytes that are not valid is left to the standard library (it puts
/// U+FFFD in place of what it cannot read).
#[verifier::external_body]
pub(crate) fn bytes_text(bytes: &[u8]) -> (text: String)
    ensures
        text@ == lossy_text(bytes@),
        valid_utf8(bytes@) ==> text@ == decode_utf8(bytes@),
{
    String::from_utf8_lossy(bytes).into_owned()
}

/// Text that is written as bytes and read back is the same text.
pub proof fn lemma_text_round_trip(text: Seq<char>)
    ensures
        valid_utf8(encode_utf8(text)),
        read_text(encode_utf8(text)) == text,
{
    encode_utf8_valid_utf8(text);
    encode_utf8_decode_utf8(text);
}

/// Bytes that are valid UTF-8 come back as they were when they are read as
/// text and the text is written as bytes.
pub proof fn lemma_bytes_round_trip(bytes: Seq<u8>)
    requires
        valid_utf8(bytes),
    ensures
        encode_utf8(read_text(bytes)) == bytes,
{
    decode_utf8_encode_utf8(bytes);
}

} // verus!
