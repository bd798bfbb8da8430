//! Reading HTTP header values as text.
use vstd::prelude::*;
use vstd::utf8::{decode_utf8, encode_utf8, valid_utf8, is_ascii_chars};

verus! {

/// A header byte that may appear in a header value read as text: a visible
/// ASCII character (space through `~`) or a horizontal tab.
pub open spec fn is_visible_ascii(b: u8) -> bool {
    (32 <= b && b < 127) || b == 9
}

/// A header value can be read as text when every byte of it is visible ASCII.
pub open spec fn is_header_text(value: Seq<u8>) -> bool {
    forall|i: int| 0 <= i < value.len() ==> is_visible_ascii(#[trigger] value[i])
}

/// A header value can be read as text exactly when each of its bytes is a
/// printable ASCII character (space 0x20 through `~` 0x7e) or a tab (0x09).
pub proof fn lemma_header_text_bytes(value: Seq<u8>)
    ensures
        is_header_text(value) <==> (forall|i: int|
            0 <= i < value.len() ==> (32 <= #[trigger] value[i] <= 126 || value[i] == 9)),
{
}

/// Whether the raw header value can be read as text (the rule that HTTP
/// header values follow when they are turned into a `&str`).
pub fn header_is_text(value: &[u8]) -> (r: bool)
    ensures
        r == is_header_text(value@),
{
    let mut i: usize = 0;
    while i < value.len()
        invariant
            i <= value.len(),
            forall|j: int| 0 <= j < i ==> is_visible_ascii(#[trigger] value@[j]),
        decreases value.len() - i,
    {
        let b: u8 = value[i];
        if !((32 <= b && b < 127) || b == 9) {
            return false;
        }
        i = i + 1;
    }
    true
}

/// The characters of a header value that is text: one per byte.
pub open spec fn ascii_text(value: Seq<u8>) -> Seq<char> {
    Seq::new(value.len(), |i: int| value[i] as char)
}

/// `String::from_utf8`: a string exactly when the bytes are valid UTF-8, with
/// the characters that the bytes encode.
#[verifier::external_body]
fn string_from_utf8(bytes: Vec<u8>) -> (text: Option<String>)
    ensures
        match text {
            Some(t) => valid_utf8(bytes@) && t@ == decode_utf8(bytes@),
            None => !valid_utf8(bytes@),
        },
{
    String::from_utf8(bytes).ok()
}

/// Bytes that are all ASCII are the UTF-8 encoding of the characters they name.
proof fn lemma_ascii_bytes_decode(value: Seq<u8>)
    requires
        is_header_text(value),
    ensures
        valid_utf8(value),
        decode_utf8(value) == ascii_text(value),
{
    let chars = ascii_text(value);
    assert(is_ascii_chars(chars)) by {
        assert forall|i: int| 0 <= i < chars.len() implies '\0' <= #[trigger] chars[i] <= '\u{7f}' by {
            assert(is_visible_ascii(value[i]));
        }
    }
    vstd::utf8::is_ascii_chars_encode_utf8(chars);
    assert(encode_utf8(chars) =~= value);
    vstd::utf8::encode_utf8_valid_utf8(chars);
    vstd::utf8::encode_utf8_decode_utf8(chars);
}

/// Text read from a header has one character per byte, the character with
/// that byte's code.
pub proof fn lemma_ascii_text_chars(value: Seq<u8>)
    ensures
        ascii_text(value).len() == value.len(),
        forall|i: int| 0 <= i < value.len() ==> #[trigger] ascii_text(value)[i] as u32 == value[i] as u32,
{
}

/// The header value as text, when it can be read as text.
pub fn header_text(value: &[u8]) -> (text: Option<String>)
    ensures
        match text {
            Some(t) => is_header_text(value@) && t@ == ascii_text(value@),
            None => !is_header_text(value@),
        },
{
    if !header_is_text(value) {
        return None;
    }
    proof {
        lemma_ascii_bytes_decode(value@);
    }
    let bytes = vstd::slice::slice_to_vec(value);
    string_from_utf8(bytes)
}

} // verus!
