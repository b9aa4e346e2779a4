//! The four bytes of a fork version as `0x`-prefixed hexadecimal text.

use crate::serde_utils::{decode_prefixed, encode_prefixed, prefixed_bytes, prefixed_hex, DecodeError};
use vstd::prelude::*;

verus! {

/// What the text denotes: the bytes of its hexadecimal digits, which must
/// be four.
pub open spec fn decoded(text: Seq<char>) -> Result<Seq<u8>, DecodeError> {
    match prefixed_bytes(text) {
        Ok(bytes) => if bytes.len() == 4 {
            Ok(bytes)
        } else {
            Err(DecodeError::WrongLength)
        },
        Err(e) => Err(e),
    }
}

/// The text for four bytes: `0x` and their eight hexadecimal digits.
pub open spec fn encoded(bytes: Seq<u8>) -> Seq<char> {
    prefixed_hex(bytes)
}

pub fn serialize(bytes: &[u8; 4]) -> (text: String)
    ensures
        text@ == encoded(bytes@),
{
    encode_prefixed(bytes.as_slice())
}

pub fn deserialize(text: &str) -> (bytes: Result<[u8; 4], DecodeError>)
    ensures
        match bytes {
            Ok(b) => decoded(text@) == Ok::<Seq<u8>, DecodeError>(b@),
            Err(e) => decoded(text@) == Err::<Seq<u8>, DecodeError>(e),
        },
{
    let found = match decode_prefixed(text) {
        Ok(found) => found,
        Err(e) => { return Err(e); },
    };
    if found.len() != 4 {
        return Err(DecodeError::WrongLength);
    }
    let mut array = [0u8; 4];
    let mut i: usize = 0;
    while i < 4
        invariant
            i <= 4,
            found.len() == 4,
            forall|j: int| 0 <= j < i ==> array@[j] == found@[j],
        decreases 4 - i,
    {
        array[i] = found[i];
        i = i + 1;
    }
    assert(array@ =~= found@);
    Ok(array)
}

} // verus!
