//! What the HTTP API decides before and after it asks the chain: which
//! block or state a request means, and what a failed request is told.

pub mod block_id;
pub mod reject;
pub mod state_id;
pub mod validators;

use crate::types::{Checkpoint, Hash256, Slot};
use vstd::prelude::*;

verus! {

/// What the chain reports of itself at one moment.
#[derive(Clone, Copy, Debug)]
pub struct ChainSnapshot {
    pub head_block_root: Hash256,
    pub head_state_root: Hash256,
    pub genesis_block_root: Hash256,
    pub genesis_state_root: Hash256,
    pub finalized_checkpoint: Checkpoint,
    pub current_justified_checkpoint: Checkpoint,
    pub slots_per_epoch: u64,
}

/// Where a root is to be had: it is known, or the chain is to be asked
/// for the root at a slot.
#[derive(Clone, Copy, Debug)]
pub enum RootLookup {
    Known(Hash256),
    AtSlot(Slot),
}

} // verus!
