//! A 32-bit number as `0x`-prefixed hexadecimal text that holds its bytes
//! from the lowest to the highest.

use crate::serde_utils::{
    after_prefix, encode_prefixed, parse_radix16, prefixed_hex, radix16, skip_prefix, DecodeError,
};
use crate::text::chars_of;
use vstd::prelude::*;

verus! {

/// The four bytes of a number, the lowest first.
pub open spec fn low_first_bytes(num: u32) -> Seq<u8> {
    seq![
        (num % 256) as u8,
        ((num / 256) % 256) as u8,
        ((num / 65536) % 256) as u8,
        (num / 16777216) as u8,
    ]
}

/// The number whose four bytes are those of `num` in the opposite order.
pub open spec fn byte_swapped(num: u32) -> u32 {
    ((num % 256) * 16777216 + ((num / 256) % 256) * 65536 + ((num / 65536) % 256) * 256 + num
        / 16777216) as u32
}

/// What the text denotes: the hexadecimal number that follows the first
/// two characters, read as four bytes of which the first is the lowest.
pub open spec fn decoded(text: Seq<char>) -> Result<u32, DecodeError> {
    match after_prefix(text) {
        None => Err(DecodeError::StringTooShort),
        Some(tail) => match radix16(tail, 0xffff_ffff) {
            Some(v) => Ok(byte_swapped(v as u32)),
            None => Err(DecodeError::InvalidNumber),
        },
    }
}

/// The text for a number: `0x` and the hexadecimal digits of its four
/// bytes, the lowest byte first.
pub open spec fn encoded(num: u32) -> Seq<char> {
    prefixed_hex(low_first_bytes(num))
}

pub fn serialize(num: &u32) -> (text: String)
    ensures
        text@ == encoded(*num),
{
    let n: u32 = *num;
    let mut bytes: Vec<u8> = Vec::new();
    bytes.push((n % 256) as u8);
    bytes.push(((n / 256) % 256) as u8);
    bytes.push(((n / 65536) % 256) as u8);
    bytes.push((n / 16777216) as u8);
    assert(bytes@ =~= low_first_bytes(n));
    encode_prefixed(bytes.as_slice())
}

pub fn deserialize(text: &str) -> (num: Result<u32, DecodeError>)
    ensures
        num == decoded(text@),
{
    let chars = chars_of(text);
    let tail = match skip_prefix(&chars) {
        Some(tail) => tail,
        None => { return Err(DecodeError::StringTooShort); },
    };
    match parse_radix16(&tail, 0xffff_ffff) {
        Some(v) => {
            let swapped: u32 = (v % 256) * 16777216 + ((v / 256) % 256) * 65536 + ((v / 65536)
                % 256) * 256 + v / 16777216;
            Ok(swapped)
        },
        None => Err(DecodeError::InvalidNumber),
    }
}

} // verus!
