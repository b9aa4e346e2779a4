//! Unsigned integers as decimal text: digits only, no sign, no leading zero.

use crate::text::{chars_of, string_of};
use vstd::prelude::*;

verus! {

/// The character for a digit below ten.
pub open spec fn digit_char(d: nat) -> char {
    if d == 0 {
        '0'
    } else if d == 1 {
        '1'
    } else if d == 2 {
        '2'
    } else if d == 3 {
        '3'
    } else if d == 4 {
        '4'
    } else if d == 5 {
        '5'
    } else if d == 6 {
        '6'
    } else if d == 7 {
        '7'
    } else if d == 8 {
        '8'
    } else {
        '9'
    }
}

/// The value of a decimal digit, if the character is one.
pub open spec fn digit_value(c: char) -> Option<nat> {
    if c == '0' {
        Some(0nat)
    } else if c == '1' {
        Some(1nat)
    } else if c == '2' {
        Some(2nat)
    } else if c == '3' {
        Some(3nat)
    } else if c == '4' {
        Some(4nat)
    } else if c == '5' {
        Some(5nat)
    } else if c == '6' {
        Some(6nat)
    } else if c == '7' {
        Some(7nat)
    } else if c == '8' {
        Some(8nat)
    } else if c == '9' {
        Some(9nat)
    } else {
        None
    }
}

/// The decimal digits of `v`, most significant first, without leading zeros.
pub open spec fn digits_of(v: nat) -> Seq<char>
    decreases v,
{
    if v < 10 {
        seq![digit_char(v)]
    } else {
        digits_of(v / 10).push(digit_char(v % 10))
    }
}

/// Every character is a decimal digit.
pub open spec fn all_digits(text: Seq<char>) -> bool {
    forall|i: int| 0 <= i < text.len() ==> digit_value(#[trigger] text[i]) is Some
}

/// The number that a sequence of decimal digits denotes.
pub open spec fn value_of(text: Seq<char>) -> nat
    decreases text.len(),
{
    if text.len() == 0 {
        0
    } else {
        match digit_value(text.last()) {
            Some(d) => value_of(text.drop_last()) * 10 + d,
            None => 0,
        }
    }
}

/// The text is a decimal numeral: at least one digit, digits only, and no
/// leading zero but for the numeral `0` itself.
pub open spec fn is_numeral(text: Seq<char>) -> bool {
    &&& text.len() > 0
    &&& all_digits(text)
    &&& text.len() > 1 ==> text[0] != '0'
}

/// What the text denotes as a `u64`: the value of a numeral that fits, and
/// nothing for any other text.
pub open spec fn parsed_u64(text: Seq<char>) -> Option<u64> {
    if is_numeral(text) && value_of(text) <= u64::MAX {
        Some(value_of(text) as u64)
    } else {
        None
    }
}

fn char_of_digit(d: u8) -> (c: char)
    requires
        d < 10,
    ensures
        c == digit_char(d as nat),
{
    if d == 0 {
        '0'
    } else if d == 1 {
        '1'
    } else if d == 2 {
        '2'
    } else if d == 3 {
        '3'
    } else if d == 4 {
        '4'
    } else if d == 5 {
        '5'
    } else if d == 6 {
        '6'
    } else if d == 7 {
        '7'
    } else if d == 8 {
        '8'
    } else {
        '9'
    }
}

fn digit_of_char(c: char) -> (d: Option<u8>)
    ensures
        match d {
            Some(v) => digit_value(c) == Some(v as nat) && v < 10,
            None => digit_value(c) is None,
        },
{
    if c == '0' {
        Some(0)
    } else if c == '1' {
        Some(1)
    } else if c == '2' {
        Some(2)
    } else if c == '3' {
        Some(3)
    } else if c == '4' {
        Some(4)
    } else if c == '5' {
        Some(5)
    } else if c == '6' {
        Some(6)
    } else if c == '7' {
        Some(7)
    } else if c == '8' {
        Some(8)
    } else if c == '9' {
        Some(9)
    } else {
        None
    }
}

/// The digits of a number are a numeral that denotes the number.
pub proof fn lemma_digits_denote(v: nat)
    ensures
        is_numeral(digits_of(v)),
        value_of(digits_of(v)) == v,
        v > 0 ==> digits_of(v)[0] != '0',
    decreases v,
{
    if v < 10 {
        let text = digits_of(v);
        assert(text.drop_last() =~= Seq::<char>::empty());
        assert(value_of(text.drop_last()) == 0);
        assert(text.last() == digit_char(v));
    } else {
        lemma_digits_denote(v / 10);
        let head = digits_of(v / 10);
        let text = digits_of(v);
        assert(text.drop_last() =~= head);
        assert(text.last() == digit_char(v % 10));
        assert(text[0] == head[0]);
        assert forall|i: int| 0 <= i < text.len() implies digit_value(#[trigger] text[i]) is Some by {
            if i < head.len() {
                assert(text[i] == head[i]);
            }
        }
    }
}

/// A numeral is the digits of the number it denotes.
pub proof fn lemma_numeral_is_digits(text: Seq<char>)
    requires
        is_numeral(text),
    ensures
        digits_of(value_of(text)) == text,
        text[0] != '0' ==> value_of(text) > 0,
    decreases text.len(),
{
    let d = digit_value(text.last()).unwrap();
    if text.len() == 1 {
        assert(text.drop_last() =~= Seq::<char>::empty());
        assert(value_of(text.drop_last()) == 0);
        assert(digits_of(d) =~= text);
    } else {
        let head = text.drop_last();
        assert(head[0] == text[0]);
        assert forall|i: int| 0 <= i < head.len() implies digit_value(#[trigger] head[i]) is Some by {
            assert(head[i] == text[i]);
        }
        if head.len() == 1 {
            assert(head.drop_last() =~= Seq::<char>::empty());
            assert(value_of(head.drop_last()) == 0);
        }
        lemma_numeral_is_digits(head);
        let v = value_of(text);
        assert(value_of(head) > 0);
        assert(v / 10 == value_of(head) && v % 10 == d);
        assert(digits_of(v) =~= text);
    }
}

/// The decimal text of `v`.
pub fn format_u64(v: u64) -> (text: String)
    ensures
        text@ == digits_of(v as nat),
{
    // Digits come out least significant first.
    let mut reversed: Vec<char> = Vec::new();
    let mut rest: u64 = v;
    while rest >= 10
        invariant
            digits_of(v as nat) == digits_of(rest as nat) + reversed@.reverse(),
        decreases rest,
    {
        let ghost before = reversed@;
        reversed.push(char_of_digit((rest % 10) as u8));
        proof {
            let d = digit_char((rest % 10) as nat);
            assert(reversed@.reverse() =~= seq![d] + before.reverse());
            assert(digits_of(rest as nat) =~= digits_of((rest / 10) as nat) + seq![d]);
        }
        rest = rest / 10;
    }
    let ghost before = reversed@;
    reversed.push(char_of_digit(rest as u8));
    assert(reversed@.reverse() =~= digits_of(rest as nat) + before.reverse());
    let mut digits: Vec<char> = Vec::new();
    let mut i: usize = reversed.len();
    while i > 0
        invariant
            i <= reversed.len(),
            digits@ == reversed@.reverse().take(reversed.len() - i),
        decreases i,
    {
        i = i - 1;
        digits.push(reversed[i]);
        assert(digits@ =~= reversed@.reverse().take(reversed.len() - i));
    }
    assert(reversed@.reverse().take(reversed.len() as int) =~= reversed@.reverse());
    string_of(&digits)
}

/// Reads a decimal numeral that fits a `u64`.
pub fn parse_u64(text: &str) -> (value: Option<u64>)
    ensures
        value == parsed_u64(text@),
{
    let chars = chars_of(text);
    parse_digits(&chars)
}

/// What a run of digits denotes as a `u64`: its value where every
/// character is a digit and the value fits, and nothing otherwise.
pub open spec fn digits_u64(text: Seq<char>) -> Option<u64> {
    if all_digits(text) && value_of(text) <= u64::MAX {
        Some(value_of(text) as u64)
    } else {
        None
    }
}

/// What the text denotes as `u64::from_str` reads it: an optional `+`,
/// then at least one digit, leading zeros allowed.
pub open spec fn plain_u64(text: Seq<char>) -> Option<u64> {
    let digits = if text.len() > 0 && text[0] == '+' {
        text.drop_first()
    } else {
        text
    };
    if digits.len() > 0 {
        digits_u64(digits)
    } else {
        None
    }
}

/// The value of the digits from position `start` on.
fn digits_value(chars: &Vec<char>, start: usize) -> (value: Option<u64>)
    requires
        start <= chars.len(),
    ensures
        value == digits_u64(chars@.skip(start as int)),
{
    let n = chars.len();
    let ghost digits = chars@.skip(start as int);
    let mut acc: u64 = 0;
    let mut i: usize = start;
    assert(digits.take(0) =~= Seq::<char>::empty());
    while i < n
        invariant
            start <= i <= n,
            n == chars.len(),
            digits == chars@.skip(start as int),
            all_digits(digits.take(i - start)),
            acc as nat == value_of(digits.take(i - start)),
        decreases n - i,
    {
        let ghost head = digits.take(i - start);
        let ghost next = digits.take(i - start + 1);
        proof {
            assert(next.drop_last() =~= head);
            assert(next.last() == chars@[i as int]);
        }
        match digit_of_char(chars[i]) {
            None => {
                proof {
                    assert(digits[i - start] == chars@[i as int]);
                    assert(!all_digits(digits));
                }
                return None;
            },
            Some(d) => {
                proof {
                    assert forall|j: int| 0 <= j < next.len() implies digit_value(
                        #[trigger] next[j],
                    ) is Some by {
                        if j < i - start {
                            assert(next[j] == head[j]);
                        }
                    }
                }
                if acc > (u64::MAX - d as u64) / 10 {
                    proof {
                        assert(value_of(next) > u64::MAX);
                        lemma_value_grows(digits, i - start + 1);
                    }
                    return None;
                }
                acc = acc * 10 + d as u64;
            },
        }
        i = i + 1;
    }
    assert(digits.take(n - start) =~= digits);
    Some(acc)
}

/// Reads a decimal numeral that fits a `u64` from its characters.
pub fn parse_digits(chars: &Vec<char>) -> (value: Option<u64>)
    ensures
        value == parsed_u64(chars@),
{
    let n = chars.len();
    if n == 0 {
        return None;
    }
    if n > 1 && chars[0] == '0' {
        return None;
    }
    assert(chars@.skip(0) =~= chars@);
    digits_value(chars, 0)
}

/// Reads a number as `u64::from_str` does: an optional `+`, then at least
/// one digit, leading zeros allowed.
pub fn parse_plain_u64(text: &str) -> (value: Option<u64>)
    ensures
        value == plain_u64(text@),
{
    let chars = chars_of(text);
    let n = chars.len();
    let start: usize = if n > 0 && chars[0] == '+' {
        1
    } else {
        0
    };
    proof {
        if start == 1 {
            assert(chars@.drop_first() =~= chars@.skip(1));
        } else {
            assert(chars@ =~= chars@.skip(0));
        }
    }
    if start == n {
        return None;
    }
    digits_value(&chars, start)
}

/// A prefix of digits denotes no more than the whole.
pub proof fn lemma_value_grows(text: Seq<char>, k: int)
    requires
        0 <= k <= text.len(),
    ensures
        all_digits(text) ==> value_of(text.take(k)) <= value_of(text),
    decreases text.len() - k,
{
    if all_digits(text) {
        if k == text.len() {
            assert(text.take(k) =~= text);
        } else {
            lemma_value_grows(text, k + 1);
            let next = text.take(k + 1);
            assert(next.drop_last() =~= text.take(k));
            assert(next.last() == text[k]);
        }
    }
}

} // verus!
