//! Integers as decimal text, with or without quotation marks around it.

use crate::decimal::{digits_of, format_u64, lemma_digits_denote, parse_digits, parsed_u64};
use crate::text::chars_of;
use vstd::prelude::*;

verus! {

/// The text is not a decimal integer that fits 64 bits.
#[derive(Clone, Copy, Debug, PartialEq, Eq, Structural)]
pub struct NotAnInteger;

/// The text without the quotation marks around it, where it has more than
/// two characters and both begins and ends with one.
pub open spec fn unquoted(text: Seq<char>) -> Seq<char> {
    if text.len() > 2 && text[0] == '"' && text.last() == '"' {
        text.subrange(1, text.len() - 1)
    } else {
        text
    }
}

/// What the text denotes: the decimal numeral inside optional quotation
/// marks.
pub open spec fn quoted_u64(text: Seq<char>) -> Result<u64, NotAnInteger> {
    match parsed_u64(unquoted(text)) {
        Some(v) => Ok(v),
        None => Err(NotAnInteger),
    }
}

/// Reads an integer from text that may carry quotation marks.
#[derive(Clone, Copy, Debug)]
pub struct QuotedIntVisitor;

impl QuotedIntVisitor {
    /// What this reader accepts, in words.
    pub fn expecting(&self) -> (message: &'static str)
        ensures
            message@ == "a quoted or unquoted integer"@,
    {
        "a quoted or unquoted integer"
    }

    pub fn visit_str(self, text: &str) -> (value: Result<u64, NotAnInteger>)
        ensures
            value == quoted_u64(text@),
    {
        let chars = chars_of(text);
        let n = chars.len();
        if n > 2 && chars[0] == '"' && chars[n - 1] == '"' {
            let mut inner: Vec<char> = Vec::new();
            let mut i: usize = 1;
            while i < n - 1
                invariant
                    1 <= i <= n - 1,
                    n == chars.len(),
                    inner@ == chars@.subrange(1, i as int),
                decreases n - i,
            {
                inner.push(chars[i]);
                assert(inner@ =~= chars@.subrange(1, i + 1));
                i = i + 1;
            }
            match parse_digits(&inner) {
                Some(v) => Ok(v),
                None => Err(NotAnInteger),
            }
        } else {
            match parse_digits(&chars) {
                Some(v) => Ok(v),
                None => Err(NotAnInteger),
            }
        }
    }
}

/// The decimal text of the integer, to be written as a string.
pub fn serialize(value: &u64) -> (text: String)
    ensures
        text@ == digits_of(*value as nat),
{
    format_u64(*value)
}

/// Reads an integer from decimal text with or without quotation marks.
pub fn deserialize(text: &str) -> (value: Result<u64, NotAnInteger>)
    ensures
        value == quoted_u64(text@),
{
    QuotedIntVisitor.visit_str(text)
}

/// What was written is read back: the text of an integer denotes it.
pub proof fn law_quoted_round_trip(value: u64)
    ensures
        quoted_u64(digits_of(value as nat)) == Ok::<u64, NotAnInteger>(value),
{
    lemma_digits_denote(value as nat);
    let text = digits_of(value as nat);
    assert(crate::decimal::digit_value(text[0]) is Some);
    assert(text[0] != '"');
}

} // verus!
