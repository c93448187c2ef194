//! What the other modules need of strings: how many characters one holds,
//! whether two of them hold the same, and which string some bytes encode.

use vstd::prelude::*;
use vstd::utf8::*;

verus! {

/// A text has at most as many characters as its UTF-8 encoding has bytes.
proof fn lemma_chars_within_bytes(chars: Seq<char>)
    ensures
        chars.len() <= encode_utf8(chars).len(),
    decreases chars.len(),
{
    if chars.len() > 0 {
        lemma_chars_within_bytes(chars.drop_first());
    }
}

/// The number of characters of a string fits in a `usize`, as the number of
/// its bytes does.
pub(crate) fn char_count_fits(text: &str)
    ensures
        text@.len() <= usize::MAX,
{
    let bytes = text.as_bytes();
    proof {
        lemma_chars_within_bytes(text@);
        assert(bytes@.len() == vstd::slice::spec_slice_len(bytes));
    }
}

/// Whether two strings hold the same characters.
pub(crate) fn same_text(a: &str, b: &str) -> (same: bool)
    ensures
        same == (a@ == b@),
{
    let left = a.as_bytes();
    let right = b.as_bytes();
    proof {
        encode_utf8_decode_utf8(a@);
        encode_utf8_decode_utf8(b@);
    }
    if left.len() != right.len() {
        return false;
    }
    let mut i: usize = 0;
    while i < left.len()
        invariant
            i <= left.len(),
            left.len() == right.len(),
            left@ == encode_utf8(a@),
            right@ == encode_utf8(b@),
            forall|j: int| 0 <= j < i ==> left[j] == right[j],
        decreases left.len() - i,
    {
        if left[i] != right[i] {
            return false;
        }
        i = i + 1;
    }
    assert(left@ =~= right@);
    true
}

/// `String::from_utf8`: turns bytes into the string that they encode. The
/// call succeeds exactly when the bytes are well-formed UTF-8, and the string
/// then holds those bytes and no others. This is what the standard library
/// says of the call; it is believed here, not proved.
#[verifier::external_body]
pub(crate) fn text_of_utf8(bytes: Vec<u8>) -> (text: Option<String>)
    ensures
        text matches Some(decoded) ==> valid_utf8(bytes@) && encode_utf8(decoded@) == bytes@,
        text is None ==> !valid_utf8(bytes@),
{
    String::from_utf8(bytes).ok()
}

} // verus!
