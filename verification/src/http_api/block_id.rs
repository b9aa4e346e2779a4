//! Which block a request means.

use crate::decimal::{digits_of, format_u64};
use crate::eth2::types::{has_0x_prefix, is_identifier, BlockId as CoreBlockId};
use crate::http_api::reject::CustomNotFound;
use crate::http_api::{ChainSnapshot, RootLookup};
use crate::types::{Hash256, Slot};
use vstd::prelude::*;
use vstd::string::StringExecFns;

verus! {

/// A block identifier as the API takes it from a request.
#[derive(Clone, Copy, Debug)]
pub struct BlockId(pub CoreBlockId);

impl BlockId {
    pub fn from_slot(slot: Slot) -> (id: Self)
        ensures
            id.0 == CoreBlockId::Slot(slot),
    {
        Self(CoreBlockId::Slot(slot))
    }

    pub fn from_root(root: Hash256) -> (id: Self)
        ensures
            id.0 == CoreBlockId::Root(root),
    {
        Self(CoreBlockId::Root(root))
    }

    /// Where the root of the block is to be had.
    pub open spec fn root_lookup(self, chain: ChainSnapshot) -> RootLookup {
        match self.0 {
            CoreBlockId::Head => RootLookup::Known(chain.head_block_root),
            CoreBlockId::Genesis => RootLookup::Known(chain.genesis_block_root),
            CoreBlockId::Finalized => RootLookup::Known(chain.finalized_checkpoint.root),
            CoreBlockId::Justified => RootLookup::Known(chain.current_justified_checkpoint.root),
            CoreBlockId::Slot(slot) => RootLookup::AtSlot(slot),
            CoreBlockId::Root(root) => RootLookup::Known(root),
        }
    }

    /// The root of the block, where the snapshot of the chain holds it, or
    /// the slot at which the chain is to be asked for it.
    pub fn root(&self, chain: &ChainSnapshot) -> (lookup: RootLookup)
        ensures
            lookup == self.root_lookup(*chain),
    {
        match &self.0 {
            CoreBlockId::Head => RootLookup::Known(chain.head_block_root),
            CoreBlockId::Genesis => RootLookup::Known(chain.genesis_block_root),
            CoreBlockId::Finalized => RootLookup::Known(chain.finalized_checkpoint.root),
            CoreBlockId::Justified => RootLookup::Known(chain.current_justified_checkpoint.root),
            CoreBlockId::Slot(slot) => RootLookup::AtSlot(*slot),
            CoreBlockId::Root(root) => RootLookup::Known(*root),
        }
    }

    /// What the chain answered when asked for the block root at a slot,
    /// as the result of the request: the root, or that there is none.
    pub fn root_at_slot(slot: Slot, answer: Option<Hash256>) -> (root: Result<
        Hash256,
        CustomNotFound,
    >)
        ensures
            match answer {
                Some(found) => root == Ok::<Hash256, CustomNotFound>(found),
                None => root is Err && root.unwrap_err().0@ == "beacon block at slot "@
                    + digits_of(slot.0 as nat),
            },
    {
        match answer {
            Some(found) => Ok(found),
            None => Err(
                CustomNotFound(
                    String::from_str("beacon block at slot ").concat(format_u64(slot.0).as_str()),
                ),
            ),
        }
    }

    /// Reads a block identifier from a request.
    pub fn parse(text: &str) -> (id: Result<BlockId, String>)
        ensures
            id is Ok == is_identifier(text@),
            id matches Ok(found) ==> found.0.is_named_by(text@),
            id matches Err(message) ==> message@ == text@ + (if has_0x_prefix(text@) {
                " cannot be parsed as a root"@
            } else {
                " cannot be parsed as a parameter"@
            }),
    {
        match CoreBlockId::parse(text) {
            Ok(id) => Ok(BlockId(id)),
            Err(e) => Err(e),
        }
    }
}

impl std::str::FromStr for BlockId {
    type Err = String;

    /// Reads the identifier as `parse` does.
    fn from_str(s: &str) -> (id: Result<Self, String>)
        ensures
            id is Ok == is_identifier(s@),
            id matches Ok(found) ==> found.0.is_named_by(s@),
            id matches Err(message) ==> message@ == s@ + (if has_0x_prefix(s@) {
                " cannot be parsed as a root"@
            } else {
                " cannot be parsed as a parameter"@
            }),
    {
        BlockId::parse(s)
    }
}

} // verus!
