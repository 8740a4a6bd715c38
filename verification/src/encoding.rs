//! Text and its bytes in UTF-8.

use crate::text::same_items;
use vstd::prelude::*;
use vstd::slice::slice_to_vec;
use vstd::utf8::{decode_utf8, encode_scalar, encode_utf8, valid_utf8};

verus! {

/// What `String::from_utf8_lossy` makes of a sequence of bytes.
pub uninterp spec fn utf8_lossy(bytes: Seq<u8>) -> Seq<char>;

/// The text that bytes encode in UTF-8 (`String::from_utf8_lossy` of std). Bytes
/// that are valid UTF-8 give the text they encode; of others no more is said
/// than that the text depends on the bytes alone.
#[verifier::external_body]
pub(crate) fn from_utf8_lossy(bytes: &Vec<u8>) -> (r: String)
    ensures
        r@ == utf8_lossy(bytes@),
        valid_utf8(bytes@) ==> r@ == decode_utf8(bytes@),
{
    String::from_utf8_lossy(bytes).into_owned()
}

/// The text that bytes encode, if they are valid UTF-8.
pub open spec fn utf8_text(bytes: Seq<u8>) -> Option<Seq<char>> {
    if valid_utf8(bytes) {
        Some(decode_utf8(bytes))
    } else {
        None
    }
}

/// The text that bytes encode, if they are valid UTF-8.
///
/// They are exactly where the text made of them has the same bytes again.
pub fn from_utf8(bytes: &Vec<u8>) -> (r: Option<String>)
    ensures
        match r {
            Some(text) => utf8_text(bytes@) == Some(text@),
            None => utf8_text(bytes@) is None,
        },
{
    let text = from_utf8_lossy(bytes);
    let again = slice_to_vec(text.as_str().as_bytes());
    proof {
        vstd::utf8::encode_utf8_valid_utf8(text@);
        if valid_utf8(bytes@) {
            vstd::utf8::decode_utf8_encode_utf8(bytes@);
        }
    }
    if same_items(&again, bytes) {
        Some(text)
    } else {
        None
    }
}

/// The byte of an ASCII character stands only for that character: a text
/// without it has no such byte.
pub proof fn lemma_no_ascii_byte(s: Seq<char>, c: char)
    requires
        c as u32 <= 0x7f,
        !s.contains(c),
    ensures
        forall|i: int| 0 <= i < encode_utf8(s).len() ==> #[trigger] encode_utf8(s)[i] != c as u8,
    decreases s.len(),
{
    if s.len() > 0 {
        let t = s.drop_first();
        if t.contains(c) {
            let k = choose|k: int| 0 <= k < t.len() && t[k] == c;
            assert(s[k + 1] == c);
        }
        lemma_no_ascii_byte(t, c);
        assert(s[0] != c);
        let first = s[0] as u32;
        vstd::utf8::char_u32_cast(s[0], first);
        lemma_bytes_of_scalar(first, c as u8);
        let head = encode_scalar(first);
        let all = encode_utf8(s);
        assert forall|i: int| 0 <= i < all.len() implies #[trigger] all[i] != c as u8 by {
            if i < head.len() {
                assert(all[i] == head[i]);
            } else {
                assert(all[i] == encode_utf8(t)[i - head.len()]);
            }
        }
    }
}

proof fn lemma_bytes_of_scalar(c: u32, b: u8)
    requires
        b <= 0x7f,
        c != b,
    ensures
        forall|i: int| 0 <= i < encode_scalar(c).len() ==> #[trigger] encode_scalar(c)[i] != b,
{
    assert(c <= 0x7f && c != b ==> (c & 0x7f) as u8 != b) by (bit_vector);
    assert(0xc0 | ((c >> 6) & 0x1f) as u8 > 0x7f) by (bit_vector);
    assert(0xe0 | ((c >> 12) & 0x0f) as u8 > 0x7f) by (bit_vector);
    assert(0xf0 | ((c >> 18) & 0x7) as u8 > 0x7f) by (bit_vector);
    assert(0x80 | (c & 0x3f) as u8 > 0x7f) by (bit_vector);
    assert(0x80 | ((c >> 6) & 0x3f) as u8 > 0x7f) by (bit_vector);
    assert(0x80 | ((c >> 12) & 0x3f) as u8 > 0x7f) by (bit_vector);
}

} // verus!
