//! Identifiers of blocks and states, and the envelopes of API responses.

use crate::decimal::{digits_of, format_u64, lemma_digits_denote, parse_plain_u64, plain_u64};
use crate::root_text::{
    format_root, is_root_text, law_root_text_round_trip, parse_root, root_bytes,
};
use crate::serde_utils::prefixed_hex;
use crate::text::chars_of;
use crate::types::{Checkpoint, Hash256, Slot};
use vstd::prelude::*;
use vstd::string::StringExecFns;

verus! {

/// Whether the characters spell the word.
pub fn spells(chars: &Vec<char>, word: &str) -> (same: bool)
    ensures
        same == (chars@ == word@),
{
    let letters = chars_of(word);
    if letters.len() != chars.len() {
        return false;
    }
    let mut i: usize = 0;
    while i < chars.len()
        invariant
            i <= chars.len(),
            letters.len() == chars.len(),
            letters@ == word@,
            forall|j: int| 0 <= j < i ==> chars@[j] == letters@[j],
        decreases chars.len() - i,
    {
        if chars[i] != letters[i] {
            return false;
        }
        i = i + 1;
    }
    assert(chars@ =~= letters@);
    true
}

/// The text is one of the four named positions of the chain.
pub open spec fn is_keyword(text: Seq<char>) -> bool {
    text == "head"@ || text == "genesis"@ || text == "finalized"@ || text == "justified"@
}

/// The text begins with `0x`.
pub open spec fn has_0x_prefix(text: Seq<char>) -> bool {
    text.len() >= 2 && text[0] == '0' && text[1] == 'x'
}

/// The text identifies a block or a state: a keyword, a root, or a slot.
pub open spec fn is_identifier(text: Seq<char>) -> bool {
    is_keyword(text) || if has_0x_prefix(text) {
        is_root_text(text)
    } else {
        plain_u64(text) is Some
    }
}

/// Which block is meant.
#[derive(Clone, Copy, Debug)]
pub enum BlockId {
    Head,
    Genesis,
    Finalized,
    Justified,
    Slot(Slot),
    Root(Hash256),
}

impl BlockId {
    /// The text names this block: a keyword names its position, text that
    /// begins with `0x` a root, and any other text a slot.
    pub open spec fn is_named_by(self, text: Seq<char>) -> bool {
        match self {
            BlockId::Head => text == "head"@,
            BlockId::Genesis => text == "genesis"@,
            BlockId::Finalized => text == "finalized"@,
            BlockId::Justified => text == "justified"@,
            BlockId::Slot(slot) => !is_keyword(text) && !has_0x_prefix(text) && plain_u64(text)
                == Some(slot.0),
            BlockId::Root(root) => !is_keyword(text) && has_0x_prefix(text) && is_root_text(text)
                && root@ == root_bytes(text),
        }
    }

    /// The text written for this block.
    pub open spec fn text(self) -> Seq<char> {
        match self {
            BlockId::Head => "head"@,
            BlockId::Genesis => "genesis"@,
            BlockId::Finalized => "finalized"@,
            BlockId::Justified => "justified"@,
            BlockId::Slot(slot) => digits_of(slot.0 as nat),
            BlockId::Root(root) => prefixed_hex(root@),
        }
    }

    /// Reads a block identifier. Text that is none says so in its error.
    pub fn parse(text: &str) -> (id: Result<BlockId, String>)
        ensures
            id is Ok == is_identifier(text@),
            id matches Ok(found) ==> found.is_named_by(text@),
            id matches Err(message) ==> message@ == text@ + (if has_0x_prefix(text@) {
                " cannot be parsed as a root"@
            } else {
                " cannot be parsed as a parameter"@
            }),
    {
        let chars = chars_of(text);
        if spells(&chars, "head") {
            Ok(BlockId::Head)
        } else if spells(&chars, "genesis") {
            Ok(BlockId::Genesis)
        } else if spells(&chars, "finalized") {
            Ok(BlockId::Finalized)
        } else if spells(&chars, "justified") {
            Ok(BlockId::Justified)
        } else if chars.len() >= 2 && chars[0] == '0' && chars[1] == 'x' {
            match parse_root(text) {
                Some(root) => Ok(BlockId::Root(root)),
                None => Err(String::from_str(text).concat(" cannot be parsed as a root")),
            }
        } else {
            match parse_plain_u64(text) {
                Some(slot) => Ok(BlockId::Slot(Slot(slot))),
                None => Err(String::from_str(text).concat(" cannot be parsed as a parameter")),
            }
        }
    }

    /// Writes the identifier as text that `parse` reads back.
    pub fn to_string(&self) -> (text: String)
        ensures
            text@ == self.text(),
    {
        match self {
            BlockId::Head => String::from_str("head"),
            BlockId::Genesis => String::from_str("genesis"),
            BlockId::Finalized => String::from_str("finalized"),
            BlockId::Justified => String::from_str("justified"),
            BlockId::Slot(slot) => format_u64(slot.0),
            BlockId::Root(root) => format_root(root),
        }
    }
}

impl std::str::FromStr for BlockId {
    type Err = String;

    /// Reads the identifier as `parse` does.
    fn from_str(s: &str) -> (id: Result<Self, String>)
        ensures
            id is Ok == is_identifier(s@),
            id matches Ok(found) ==> found.is_named_by(s@),
            id matches Err(message) ==> message@ == s@ + (if has_0x_prefix(s@) {
                " cannot be parsed as a root"@
            } else {
                " cannot be parsed as a parameter"@
            }),
    {
        BlockId::parse(s)
    }
}

/// Which state is meant.
#[derive(Clone, Copy, Debug)]
pub enum StateId {
    Head,
    Genesis,
    Finalized,
    Justified,
    Slot(Slot),
    Root(Hash256),
}

impl StateId {
    /// The text names this state: a keyword names its position, text that
    /// begins with `0x` a root, and any other text a slot.
    pub open spec fn is_named_by(self, text: Seq<char>) -> bool {
        match self {
            StateId::Head => text == "head"@,
            StateId::Genesis => text == "genesis"@,
            StateId::Finalized => text == "finalized"@,
            StateId::Justified => text == "justified"@,
            StateId::Slot(slot) => !is_keyword(text) && !has_0x_prefix(text) && plain_u64(text)
                == Some(slot.0),
            StateId::Root(root) => !is_keyword(text) && has_0x_prefix(text) && is_root_text(text)
                && root@ == root_bytes(text),
        }
    }

    /// The text written for this state.
    pub open spec fn text(self) -> Seq<char> {
        match self {
            StateId::Head => "head"@,
            StateId::Genesis => "genesis"@,
            StateId::Finalized => "finalized"@,
            StateId::Justified => "justified"@,
            StateId::Slot(slot) => digits_of(slot.0 as nat),
            StateId::Root(root) => prefixed_hex(root@),
        }
    }

    /// Reads a state identifier. Text that is none says so in its error.
    pub fn parse(text: &str) -> (id: Result<StateId, String>)
        ensures
            id is Ok == is_identifier(text@),
            id matches Ok(found) ==> found.is_named_by(text@),
            id matches Err(message) ==> message@ == text@ + (if has_0x_prefix(text@) {
                " cannot be parsed as a root"@
            } else {
                " cannot be parsed as a slot"@
            }),
    {
        let chars = chars_of(text);
        if spells(&chars, "head") {
            Ok(StateId::Head)
        } else if spells(&chars, "genesis") {
            Ok(StateId::Genesis)
        } else if spells(&chars, "finalized") {
            Ok(StateId::Finalized)
        } else if spells(&chars, "justified") {
            Ok(StateId::Justified)
        } else if chars.len() >= 2 && chars[0] == '0' && chars[1] == 'x' {
            match parse_root(text) {
                Some(root) => Ok(StateId::Root(root)),
                None => Err(String::from_str(text).concat(" cannot be parsed as a root")),
            }
        } else {
            match parse_plain_u64(text) {
                Some(slot) => Ok(StateId::Slot(Slot(slot))),
                None => Err(String::from_str(text).concat(" cannot be parsed as a slot")),
            }
        }
    }

    /// Writes the identifier as text that `parse` reads back.
    pub fn to_string(&self) -> (text: String)
        ensures
            text@ == self.text(),
    {
        match self {
            StateId::Head => String::from_str("head"),
            StateId::Genesis => String::from_str("genesis"),
            StateId::Finalized => String::from_str("finalized"),
            StateId::Justified => String::from_str("justified"),
            StateId::Slot(slot) => format_u64(slot.0),
            StateId::Root(root) => format_root(root),
        }
    }
}

impl std::str::FromStr for StateId {
    type Err = String;

    /// Reads the identifier as `parse` does.
    fn from_str(s: &str) -> (id: Result<Self, String>)
        ensures
            id is Ok == is_identifier(s@),
            id matches Ok(found) ==> found.is_named_by(s@),
            id matches Err(message) ==> message@ == s@ + (if has_0x_prefix(s@) {
                " cannot be parsed as a root"@
            } else {
                " cannot be parsed as a slot"@
            }),
    {
        StateId::parse(s)
    }
}

/// The text of a number names no keyword and does not begin with `0x`.
proof fn lemma_digits_are_plain(v: u64)
    ensures
        !is_keyword(digits_of(v as nat)),
        !has_0x_prefix(digits_of(v as nat)),
        plain_u64(digits_of(v as nat)) == Some(v),
{
    reveal_strlit("head");
    reveal_strlit("genesis");
    reveal_strlit("finalized");
    reveal_strlit("justified");
    lemma_digits_denote(v as nat);
    let text = digits_of(v as nat);
    assert(crate::decimal::digit_value(text[0]) is Some);
    if text.len() >= 2 {
        assert(crate::decimal::digit_value(text[1]) is Some);
    }
}

/// The text of a root names no keyword and is the text of a root.
proof fn lemma_root_text_is_root(root: Hash256)
    ensures
        !is_keyword(prefixed_hex(root@)),
        has_0x_prefix(prefixed_hex(root@)),
        is_root_text(prefixed_hex(root@)),
        root_bytes(prefixed_hex(root@)) == root@,
{
    reveal_strlit("head");
    reveal_strlit("genesis");
    reveal_strlit("finalized");
    reveal_strlit("justified");
    law_root_text_round_trip(root);
}

/// What is written for a block names that block, and no other: reading
/// the text gives the block back.
pub proof fn law_block_id_round_trip(id: BlockId)
    ensures
        is_identifier(id.text()),
        id.is_named_by(id.text()),
{
    reveal_strlit("head");
    reveal_strlit("genesis");
    reveal_strlit("finalized");
    reveal_strlit("justified");
    match id {
        BlockId::Slot(slot) => lemma_digits_are_plain(slot.0),
        BlockId::Root(root) => lemma_root_text_is_root(root),
        _ => {},
    }
}

/// What is written for a state names that state: reading the text gives
/// the state back.
pub proof fn law_state_id_round_trip(id: StateId)
    ensures
        is_identifier(id.text()),
        id.is_named_by(id.text()),
{
    reveal_strlit("head");
    reveal_strlit("genesis");
    reveal_strlit("finalized");
    reveal_strlit("justified");
    match id {
        StateId::Slot(slot) => lemma_digits_are_plain(slot.0),
        StateId::Root(root) => lemma_root_text_is_root(root),
        _ => {},
    }
}

/// The envelope of every response: the payload under `data`.
#[derive(Clone, Copy, Debug)]
pub struct GenericResponse<T> {
    pub data: T,
}

impl<T> From<T> for GenericResponse<T> {
    fn from(data: T) -> (response: Self) {
        Self { data }
    }
}

impl<T> vstd::std_specs::convert::FromSpecImpl<T> for GenericResponse<T> {
    open spec fn obeys_from_spec() -> bool {
        true
    }

    open spec fn from_spec(data: T) -> Self {
        GenericResponse { data }
    }
}

/// A root as a payload.
#[derive(Clone, Copy, Debug)]
pub struct RootData {
    pub root: Hash256,
}

impl From<Hash256> for RootData {
    fn from(root: Hash256) -> (data: Self) {
        Self { root }
    }
}

impl vstd::std_specs::convert::FromSpecImpl<Hash256> for RootData {
    open spec fn obeys_from_spec() -> bool {
        true
    }

    open spec fn from_spec(root: Hash256) -> Self {
        RootData { root }
    }
}

/// The three checkpoints that describe how far the chain is final.
#[derive(Clone, Copy, Debug)]
pub struct FinalityCheckpointsData {
    pub previous_justified: Checkpoint,
    pub current_justified: Checkpoint,
    pub finalized: Checkpoint,
}

} // verus!
