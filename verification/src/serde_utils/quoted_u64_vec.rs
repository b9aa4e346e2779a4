//! Lists of integers, each as decimal text with or without quotation marks.

use crate::decimal::digits_of;
use crate::serde_utils::quoted::{deserialize as read_quoted, quoted_u64, serialize as write_quoted, NotAnInteger};
use vstd::prelude::*;

verus! {

/// An integer that is written in quotation marks.
#[derive(Clone, Copy, Debug, PartialEq, Eq, Structural)]
pub struct QuotedIntWrapper {
    pub value: u64,
}

/// Reads a list of integers from a list of their wrappers.
#[derive(Clone, Copy, Debug)]
pub struct QuotedIntVecVisitor;

impl QuotedIntVecVisitor {
    /// What this reader accepts, in words.
    pub fn expecting(&self) -> (message: &'static str)
        ensures
            message@ == "a list of quoted or unquoted integers"@,
    {
        "a list of quoted or unquoted integers"
    }

    /// The integers that the wrappers hold, in order.
    pub fn visit_seq(self, seq: Vec<QuotedIntWrapper>) -> (values: Vec<u64>)
        ensures
            values@.len() == seq@.len(),
            forall|i: int| 0 <= i < seq@.len() ==> values@[i] == seq@[i].value,
    {
        let mut values: Vec<u64> = Vec::new();
        let mut i: usize = 0;
        while i < seq.len()
            invariant
                i <= seq.len(),
                values@.len() == i,
                forall|j: int| 0 <= j < i ==> values@[j] == seq@[j].value,
            decreases seq.len() - i,
        {
            values.push(seq[i].value);
            i = i + 1;
        }
        values
    }
}

/// The decimal text of each integer, in order.
pub fn serialize(value: &Vec<u64>) -> (texts: Vec<String>)
    ensures
        texts@.len() == value@.len(),
        forall|i: int| 0 <= i < value@.len() ==> texts@[i]@ == digits_of(value@[i] as nat),
{
    let mut texts: Vec<String> = Vec::new();
    let mut i: usize = 0;
    while i < value.len()
        invariant
            i <= value.len(),
            texts@.len() == i,
            forall|j: int| 0 <= j < i ==> texts@[j]@ == digits_of(value@[j] as nat),
        decreases value.len() - i,
    {
        texts.push(write_quoted(&value[i]));
        i = i + 1;
    }
    texts
}

/// Every one of the texts denotes an integer.
pub open spec fn all_integers(texts: Seq<String>) -> bool {
    forall|i: int| 0 <= i < texts.len() ==> quoted_u64((#[trigger] texts[i])@) is Ok
}

/// Reads a list of integers, each from decimal text with or without
/// quotation marks. One text that denotes no integer fails the list.
pub fn deserialize(texts: &Vec<String>) -> (values: Result<Vec<u64>, NotAnInteger>)
    ensures
        values is Ok == all_integers(texts@),
        values matches Ok(v) ==> v@.len() == texts@.len() && forall|i: int|
            0 <= i < texts@.len() ==> Ok::<u64, NotAnInteger>(v@[i]) == quoted_u64(texts@[i]@),
{
    let mut wrapped: Vec<QuotedIntWrapper> = Vec::new();
    let mut i: usize = 0;
    while i < texts.len()
        invariant
            i <= texts.len(),
            wrapped@.len() == i,
            forall|j: int|
                0 <= j < i ==> Ok::<u64, NotAnInteger>(wrapped@[j].value) == quoted_u64(
                    (#[trigger] texts@[j])@,
                ),
        decreases texts.len() - i,
    {
        match read_quoted(texts[i].as_str()) {
            Ok(value) => wrapped.push(QuotedIntWrapper { value }),
            Err(e) => {
                assert(quoted_u64(texts@[i as int]@) is Err);
                return Err(e);
            },
        }
        i = i + 1;
    }
    Ok(QuotedIntVecVisitor.visit_seq(wrapped))
}

} // verus!
