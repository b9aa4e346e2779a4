//! A byte as `0x`-prefixed hexadecimal text.

use crate::serde_utils::{
    after_prefix, encode_prefixed, parse_radix16, prefixed_hex, radix16, skip_prefix, DecodeError,
};
use crate::text::chars_of;
use vstd::prelude::*;

verus! {

/// What the text denotes: the hexadecimal number below 256 that follows
/// the first two characters.
pub open spec fn decoded(text: Seq<char>) -> Result<u8, DecodeError> {
    match after_prefix(text) {
        None => Err(DecodeError::StringTooShort),
        Some(tail) => match radix16(tail, 255) {
            Some(v) => Ok(v as u8),
            None => Err(DecodeError::InvalidNumber),
        },
    }
}

/// The text for a byte: `0x` and its two hexadecimal digits.
pub open spec fn encoded(byte: u8) -> Seq<char> {
    prefixed_hex(seq![byte])
}

pub fn serialize(byte: &u8) -> (text: String)
    ensures
        text@ == encoded(*byte),
{
    let mut bytes: Vec<u8> = Vec::new();
    bytes.push(*byte);
    assert(bytes@ =~= seq![*byte]);
    encode_prefixed(bytes.as_slice())
}

pub fn deserialize(text: &str) -> (byte: Result<u8, DecodeError>)
    ensures
        byte == decoded(text@),
{
    let chars = chars_of(text);
    let tail = match skip_prefix(&chars) {
        Some(tail) => tail,
        None => { return Err(DecodeError::StringTooShort); },
    };
    match parse_radix16(&tail, 255) {
        Some(v) => Ok(v as u8),
        None => Err(DecodeError::InvalidNumber),
    }
}

} // verus!
