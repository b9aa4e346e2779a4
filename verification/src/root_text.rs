//! 32-byte roots as text: `0x` and 64 hexadecimal digits.

use crate::hex_text::{bytes_of, hex_of, is_hex, is_lower_hex, lemma_decode_encoded};
use crate::serde_utils::{decode_prefixed, encode_prefixed, prefixed_hex};
use crate::text::chars_of;
use crate::types::{root_of_bytes, Hash256};
use vstd::prelude::*;

verus! {

/// The text is `0x` followed by 64 hexadecimal digits of either case.
pub open spec fn is_root_text(text: Seq<char>) -> bool {
    &&& text.len() == 66
    &&& text[0] == '0'
    &&& text[1] == 'x'
    &&& is_hex(text.skip(2))
}

/// The text is `0x` followed by 64 hexadecimal digits, none of them an
/// upper-case letter.
pub open spec fn is_canonical_root_text(text: Seq<char>) -> bool {
    &&& is_root_text(text)
    &&& forall|i: int| 2 <= i < text.len() ==> is_lower_hex(#[trigger] text[i])
}

/// The bytes of the root that the text denotes.
pub open spec fn root_bytes(text: Seq<char>) -> Seq<u8> {
    bytes_of(text.skip(2))
}

/// Reads a root from `0x` and 64 hexadecimal digits of either case.
pub fn parse_root(text: &str) -> (root: Option<Hash256>)
    ensures
        root is Some == is_root_text(text@),
        root matches Some(r) ==> r@ == root_bytes(text@),
{
    let chars = chars_of(text);
    if chars.len() != 66 || chars[0] != '0' || chars[1] != 'x' {
        return None;
    }
    match decode_prefixed(text) {
        Ok(found) => {
            assert(found.len() == 32);
            Some(root_of_bytes(&found))
        },
        Err(_) => None,
    }
}

/// Reads a root from `0x` and 64 hexadecimal digits, none of them an
/// upper-case letter.
pub fn parse_canonical_root(text: &str) -> (root: Option<Hash256>)
    ensures
        root is Some == is_canonical_root_text(text@),
        root matches Some(r) ==> r@ == root_bytes(text@),
{
    let chars = chars_of(text);
    let mut i: usize = 0;
    while i < chars.len()
        invariant
            i <= chars.len(),
            chars@ == text@,
            forall|j: int| 2 <= j < i ==> !('A' <= #[trigger] chars@[j] <= 'F'),
        decreases chars.len() - i,
    {
        if i >= 2 && 'A' <= chars[i] && chars[i] <= 'F' {
            assert(!is_lower_hex(text@[i as int]));
            return None;
        }
        i = i + 1;
    }
    let root = parse_root(text);
    proof {
        if root is Some {
            assert forall|j: int| 2 <= j < text@.len() implies is_lower_hex(#[trigger] text@[j]) by {
                assert(text@.skip(2)[j - 2] == text@[j]);
                assert(!('A' <= chars@[j] <= 'F'));
            }
        }
    }
    root
}

/// Writes a root as `0x` and 64 lower-case hexadecimal digits.
pub fn format_root(root: &Hash256) -> (text: String)
    ensures
        text@ == prefixed_hex(root@),
{
    encode_prefixed(root.0.as_slice())
}

/// The text written for a root is canonical and denotes the root.
pub proof fn law_root_text_round_trip(root: Hash256)
    ensures
        is_canonical_root_text(prefixed_hex(root@)),
        root_bytes(prefixed_hex(root@)) == root@,
{
    let text = prefixed_hex(root@);
    lemma_decode_encoded(root@);
    assert(text.skip(2) =~= hex_of(root@));
    assert forall|i: int| 2 <= i < text.len() implies is_lower_hex(#[trigger] text[i]) by {
        assert(text[i] == hex_of(root@)[i - 2]);
    }
}

} // verus!
