//! A value that is written as a quoted decimal integer.

use crate::decimal::digits_of;
use crate::serde_utils::quoted::{deserialize, quoted_u64, serialize, NotAnInteger};
use vstd::prelude::*;

verus! {

/// A slot, an epoch or another 64-bit quantity that is written in
/// quotation marks.
#[derive(Clone, Copy, Debug, PartialEq, Eq, Hash)]
pub struct Quoted<T> where T: From<u64> + Into<u64> + Copy {
    pub value: T,
}

impl Quoted<u64> {
    /// The decimal text of the value.
    pub fn to_text(&self) -> (text: String)
        ensures
            text@ == digits_of(self.value as nat),
    {
        serialize(&self.value)
    }

    /// Reads the value from decimal text with or without quotation marks.
    pub fn from_text(text: &str) -> (quoted: Result<Quoted<u64>, NotAnInteger>)
        ensures
            match quoted_u64(text@) {
                Ok(v) => quoted is Ok && quoted.unwrap().value == v,
                Err(e) => quoted is Err,
            },
    {
        match deserialize(text) {
            Ok(value) => Ok(Quoted { value }),
            Err(e) => Err(e),
        }
    }
}

} // verus!
