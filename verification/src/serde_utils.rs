//! Text forms of numbers and byte strings: quoted decimal integers and
//! `0x`-prefixed hexadecimal.

pub mod fork_bytes_4;
pub mod graffiti;
pub mod quoted;
pub mod quoted_u64_vec;
pub mod u32_hex;
pub mod u8_hex;

use crate::hex_text::{hex_value, is_hex};
use vstd::prelude::*;

verus! {

pub const FORK_BYTES_LEN: usize = 4;

pub const GRAFFITI_BYTES_LEN: usize = 32;

/// Why a text was not decoded.
#[derive(Clone, Copy, Debug, PartialEq, Eq, Structural)]
pub enum DecodeError {
    /// The text has fewer than two characters, so no room for a prefix.
    StringTooShort,
    /// What follows the prefix is not a hexadecimal number that fits.
    InvalidNumber,
    /// What follows the prefix is not an even number of hexadecimal digits.
    InvalidHex,
    /// The bytes decoded are not as many as the value has.
    WrongLength,
}

/// The number that a sequence of hexadecimal digits denotes.
pub open spec fn hex_number(text: Seq<char>) -> nat
    decreases text.len(),
{
    if text.len() == 0 {
        0
    } else {
        match hex_value(text.last()) {
            Some(d) => hex_number(text.drop_last()) * 16 + d,
            None => 0,
        }
    }
}

/// Every character is a hexadecimal digit.
pub open spec fn all_hex(text: Seq<char>) -> bool {
    forall|i: int| 0 <= i < text.len() ==> hex_value(#[trigger] text[i]) is Some
}

/// What the text denotes as a hexadecimal number no larger than `max`: an
/// optional `+`, then at least one hexadecimal digit of either case.
pub open spec fn radix16(text: Seq<char>, max: nat) -> Option<nat> {
    let digits = if text.len() > 0 && text[0] == '+' {
        text.drop_first()
    } else {
        text
    };
    if digits.len() > 0 && all_hex(digits) && hex_number(digits) <= max {
        Some(hex_number(digits))
    } else {
        None
    }
}

/// The text without its first two characters, where it has as many.
pub open spec fn after_prefix(text: Seq<char>) -> Option<Seq<char>> {
    if text.len() >= 2 {
        Some(text.skip(2))
    } else {
        None
    }
}

/// The characters after the first two, where there are as many.
pub fn skip_prefix(chars: &Vec<char>) -> (tail: Option<Vec<char>>)
    ensures
        match tail {
            Some(t) => after_prefix(chars@) == Some(t@),
            None => after_prefix(chars@) is None,
        },
{
    if chars.len() < 2 {
        return None;
    }
    let mut tail: Vec<char> = Vec::new();
    let mut i: usize = 2;
    while i < chars.len()
        invariant
            2 <= i <= chars.len(),
            tail@ == chars@.subrange(2, i as int),
        decreases chars.len() - i,
    {
        tail.push(chars[i]);
        assert(tail@ =~= chars@.subrange(2, i + 1));
        i = i + 1;
    }
    assert(chars@.subrange(2, chars.len() as int) =~= chars@.skip(2));
    Some(tail)
}

fn value_of_hex_digit(c: char) -> (d: Option<u8>)
    ensures
        match d {
            Some(v) => hex_value(c) == Some(v as nat) && v < 16,
            None => hex_value(c) is None,
        },
{
    if c == '0' {
        Some(0)
    } else if c == '1' {
        Some(1)
    } else if c == '2' {
        Some(2)
    } else if c == '3' {
        Some(3)
    } else if c == '4' {
        Some(4)
    } else if c == '5' {
        Some(5)
    } else if c == '6' {
        Some(6)
    } else if c == '7' {
        Some(7)
    } else if c == '8' {
        Some(8)
    } else if c == '9' {
        Some(9)
    } else if c == 'a' || c == 'A' {
        Some(10)
    } else if c == 'b' || c == 'B' {
        Some(11)
    } else if c == 'c' || c == 'C' {
        Some(12)
    } else if c == 'd' || c == 'D' {
        Some(13)
    } else if c == 'e' || c == 'E' {
        Some(14)
    } else if c == 'f' || c == 'F' {
        Some(15)
    } else {
        None
    }
}

/// A prefix of hexadecimal digits denotes no more than the whole.
proof fn lemma_hex_number_grows(text: Seq<char>, k: int)
    requires
        0 <= k <= text.len(),
        all_hex(text),
    ensures
        hex_number(text.take(k)) <= hex_number(text),
    decreases text.len() - k,
{
    if k == text.len() {
        assert(text.take(k) =~= text);
    } else {
        lemma_hex_number_grows(text, k + 1);
        let next = text.take(k + 1);
        assert(next.drop_last() =~= text.take(k));
        assert(next.last() == text[k]);
    }
}

/// Reads a hexadecimal number no larger than `max`: an optional `+`, then
/// at least one hexadecimal digit of either case.
pub fn parse_radix16(chars: &Vec<char>, max: u32) -> (value: Option<u32>)
    ensures
        match value {
            Some(v) => radix16(chars@, max as nat) == Some(v as nat),
            None => radix16(chars@, max as nat) is None,
        },
{
    let n = chars.len();
    let start: usize = if n > 0 && chars[0] == '+' {
        1
    } else {
        0
    };
    let ghost digits = chars@.skip(start as int);
    proof {
        if start == 1 {
            assert(chars@.drop_first() =~= digits);
        } else {
            assert(chars@ =~= digits);
        }
    }
    if start == n {
        return None;
    }
    let mut acc: u64 = 0;
    let mut i: usize = start;
    assert(digits.take(0) =~= Seq::<char>::empty());
    while i < n
        invariant
            start <= i <= n,
            n == chars.len(),
            digits == chars@.skip(start as int),
            digits == (if chars@.len() > 0 && chars@[0] == '+' {
                chars@.drop_first()
            } else {
                chars@
            }),
            all_hex(digits.take(i - start)),
            acc as nat == hex_number(digits.take(i - start)),
            acc <= max,
        decreases n - i,
    {
        let ghost head = digits.take(i - start);
        let ghost next = digits.take(i - start + 1);
        proof {
            assert(next.drop_last() =~= head);
            assert(next.last() == chars@[i as int]);
        }
        match value_of_hex_digit(chars[i]) {
            None => {
                proof {
                    assert(digits[i - start] == chars@[i as int]);
                    assert(!all_hex(digits));
                }
                return None;
            },
            Some(d) => {
                proof {
                    assert forall|j: int| 0 <= j < next.len() implies hex_value(
                        #[trigger] next[j],
                    ) is Some by {
                        if j < i - start {
                            assert(next[j] == head[j]);
                        }
                    }
                }
                let wider: u64 = acc * 16 + d as u64;
                if wider > max as u64 {
                    proof {
                        if all_hex(digits) {
                            lemma_hex_number_grows(digits, i - start + 1);
                        }
                    }
                    return None;
                }
                acc = wider;
            },
        }
        i = i + 1;
    }
    assert(digits.take(n - start) =~= digits);
    Some(acc as u32)
}

/// Reads a byte from `0x`-prefixed hexadecimal text.
pub fn u8_from_hex_str(text: &str) -> (byte: Result<u8, DecodeError>)
    ensures
        byte == u8_hex::decoded(text@),
{
    u8_hex::deserialize(text)
}

/// Writes a byte as `0x`-prefixed hexadecimal text.
pub fn u8_to_hex_str(byte: &u8) -> (text: String)
    ensures
        text@ == u8_hex::encoded(*byte),
{
    u8_hex::serialize(byte)
}

/// Reads a number from `0x`-prefixed hexadecimal text that holds its bytes
/// from the lowest to the highest.
pub fn u32_from_hex_str(text: &str) -> (num: Result<u32, DecodeError>)
    ensures
        num == u32_hex::decoded(text@),
{
    u32_hex::deserialize(text)
}

/// Writes a number as `0x`-prefixed hexadecimal text that holds its bytes
/// from the lowest to the highest.
pub fn u32_to_hex_str(num: &u32) -> (text: String)
    ensures
        text@ == u32_hex::encoded(*num),
{
    u32_hex::serialize(num)
}

/// Reads the four bytes of a fork version from `0x`-prefixed hexadecimal text.
pub fn fork_from_hex_str(text: &str) -> (bytes: Result<[u8; 4], DecodeError>)
    ensures
        match bytes {
            Ok(b) => fork_bytes_4::decoded(text@) == Ok::<Seq<u8>, DecodeError>(b@),
            Err(e) => fork_bytes_4::decoded(text@) == Err::<Seq<u8>, DecodeError>(e),
        },
{
    fork_bytes_4::deserialize(text)
}

/// Writes the four bytes of a fork version as `0x`-prefixed hexadecimal text.
pub fn fork_to_hex_str(bytes: &[u8; 4]) -> (text: String)
    ensures
        text@ == fork_bytes_4::encoded(bytes@),
{
    fork_bytes_4::serialize(bytes)
}

/// Reads the 32 bytes of a graffiti from `0x`-prefixed hexadecimal text.
pub fn graffiti_from_hex_str(text: &str) -> (bytes: Result<[u8; 32], DecodeError>)
    ensures
        match bytes {
            Ok(b) => graffiti::decoded(text@) == Ok::<Seq<u8>, DecodeError>(b@),
            Err(e) => graffiti::decoded(text@) == Err::<Seq<u8>, DecodeError>(e),
        },
{
    graffiti::deserialize(text)
}

/// Writes the 32 bytes of a graffiti as `0x`-prefixed hexadecimal text.
pub fn graffiti_to_hex_str(bytes: &[u8; 32]) -> (text: String)
    ensures
        text@ == graffiti::encoded(bytes@),
{
    graffiti::serialize(bytes)
}

/// What `0x`-prefixed hexadecimal text denotes as bytes: the bytes of the
/// even number of hexadecimal digits that follow the first two characters.
pub open spec fn prefixed_bytes(text: Seq<char>) -> Result<Seq<u8>, DecodeError> {
    match after_prefix(text) {
        None => Err(DecodeError::StringTooShort),
        Some(tail) => if is_hex(tail) {
            Ok(crate::hex_text::bytes_of(tail))
        } else {
            Err(DecodeError::InvalidHex)
        },
    }
}

/// The text `0x` followed by the lower-case hexadecimal digits of the bytes.
pub open spec fn prefixed_hex(bytes: Seq<u8>) -> Seq<char> {
    seq!['0', 'x'] + crate::hex_text::hex_of(bytes)
}

/// Reads the bytes of `0x`-prefixed hexadecimal text.
pub fn decode_prefixed(text: &str) -> (bytes: Result<Vec<u8>, DecodeError>)
    ensures
        match bytes {
            Ok(b) => prefixed_bytes(text@) == Ok::<Seq<u8>, DecodeError>(b@),
            Err(e) => prefixed_bytes(text@) == Err::<Seq<u8>, DecodeError>(e),
        },
{
    let chars = crate::text::chars_of(text);
    let tail = match skip_prefix(&chars) {
        Some(tail) => tail,
        None => { return Err(DecodeError::StringTooShort); },
    };
    let digits = crate::text::string_of(&tail);
    match crate::hex_text::decode(digits.as_str()) {
        Ok(bytes) => Ok(bytes),
        Err(_) => Err(DecodeError::InvalidHex),
    }
}

/// Writes bytes as `0x`-prefixed lower-case hexadecimal text.
pub fn encode_prefixed(bytes: &[u8]) -> (text: String)
    ensures
        text@ == prefixed_hex(bytes@),
{
    let digits = crate::hex_text::encode(bytes);
    let mut chars: Vec<char> = Vec::new();
    chars.push('0');
    chars.push('x');
    let tail = crate::text::chars_of(digits.as_str());
    let mut i: usize = 0;
    while i < tail.len()
        invariant
            i <= tail.len(),
            chars@ == seq!['0', 'x'] + tail@.take(i as int),
        decreases tail.len() - i,
    {
        chars.push(tail[i]);
        assert(chars@ =~= seq!['0', 'x'] + tail@.take(i + 1));
        i = i + 1;
    }
    assert(tail@.take(tail.len() as int) =~= tail@);
    crate::text::string_of(&chars)
}

} // verus!
