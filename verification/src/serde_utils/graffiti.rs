//! The 32 bytes of a graffiti as `0x`-prefixed hexadecimal text.

use crate::serde_utils::{decode_prefixed, encode_prefixed, prefixed_bytes, prefixed_hex, DecodeError};
use vstd::prelude::*;

verus! {

/// What the text denotes: the bytes of its hexadecimal digits, which must
/// be 32.
pub open spec fn decoded(text: Seq<char>) -> Result<Seq<u8>, DecodeError> {
    match prefixed_bytes(text) {
        Ok(bytes) => if bytes.len() == 32 {
            Ok(bytes)
        } else {
            Err(DecodeError::WrongLength)
        },
        Err(e) => Err(e),
    }
}

/// The text for 32 bytes: `0x` and their 64 hexadecimal digits.
pub open spec fn encoded(bytes: Seq<u8>) -> Seq<char> {
    prefixed_hex(bytes)
}

pub fn serialize(bytes: &[u8; 32]) -> (text: String)
    ensures
        text@ == encoded(bytes@),
{
    encode_prefixed(bytes.as_slice())
}

pub fn deserialize(text: &str) -> (bytes: Result<[u8; 32], DecodeError>)
    ensures
        match bytes {
            Ok(b) => decoded(text@) == Ok::<Seq<u8>, DecodeError>(b@),
            Err(e) => decoded(text@) == Err::<Seq<u8>, DecodeError>(e),
        },
{
    let found = match decode_prefixed(text) {
        Ok(found) => found,
        Err(e) => { return Err(e); },
    };
    if found.len() != 32 {
        return Err(DecodeError::WrongLength);
    }
    let mut array = [0u8; 32];
    let mut i: usize = 0;
    while i < 32
        invariant
            i <= 32,
            found.len() == 32,
            forall|j: int| 0 <= j < i ==> array@[j] == found@[j],
        decreases 32 - i,
    {
        array[i] = found[i];
        i = i + 1;
    }
    assert(array@ =~= found@);
    Ok(array)
}

} // verus!
