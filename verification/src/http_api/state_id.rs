//! Which state a request means.

use crate::decimal::{digits_of, format_u64};
use crate::eth2::types::{has_0x_prefix, is_identifier, StateId as CoreStateId};
use crate::http_api::reject::CustomNotFound;
use crate::http_api::{ChainSnapshot, RootLookup};
use crate::types::{Epoch, Hash256, Slot};
use vstd::prelude::*;
use vstd::string::StringExecFns;

verus! {

/// The first slot of an epoch, or the highest slot where that would not fit.
pub open spec fn start_slot(epoch: Epoch, slots_per_epoch: u64) -> Slot {
    if epoch.0 * slots_per_epoch <= u64::MAX {
        Slot((epoch.0 * slots_per_epoch) as u64)
    } else {
        Slot(u64::MAX)
    }
}

/// The first slot of an epoch, or the highest slot where that would not fit.
pub fn epoch_start_slot(epoch: Epoch, slots_per_epoch: u64) -> (slot: Slot)
    ensures
        slot == start_slot(epoch, slots_per_epoch),
{
    match epoch.0.checked_mul(slots_per_epoch) {
        Some(slot) => Slot(slot),
        None => Slot(u64::MAX),
    }
}

/// A state identifier as the API takes it from a request.
#[derive(Clone, Copy, Debug)]
pub struct StateId(pub CoreStateId);

impl StateId {
    /// Where the root of the state is to be had.
    pub open spec fn root_lookup(self, chain: ChainSnapshot) -> RootLookup {
        match self.0 {
            CoreStateId::Head => RootLookup::Known(chain.head_state_root),
            CoreStateId::Genesis => RootLookup::Known(chain.genesis_state_root),
            CoreStateId::Finalized => RootLookup::AtSlot(
                start_slot(chain.finalized_checkpoint.epoch, chain.slots_per_epoch),
            ),
            CoreStateId::Justified => RootLookup::AtSlot(
                start_slot(chain.current_justified_checkpoint.epoch, chain.slots_per_epoch),
            ),
            CoreStateId::Slot(slot) => RootLookup::AtSlot(slot),
            CoreStateId::Root(root) => RootLookup::Known(root),
        }
    }

    /// The root of the state, where the snapshot of the chain holds it, or
    /// the slot at which the chain is to be asked for it.
    pub fn root(&self, chain: &ChainSnapshot) -> (lookup: RootLookup)
        ensures
            lookup == self.root_lookup(*chain),
    {
        match &self.0 {
            CoreStateId::Head => RootLookup::Known(chain.head_state_root),
            CoreStateId::Genesis => RootLookup::Known(chain.genesis_state_root),
            CoreStateId::Finalized => RootLookup::AtSlot(
                epoch_start_slot(chain.finalized_checkpoint.epoch, chain.slots_per_epoch),
            ),
            CoreStateId::Justified => RootLookup::AtSlot(
                epoch_start_slot(chain.current_justified_checkpoint.epoch, chain.slots_per_epoch),
            ),
            CoreStateId::Slot(slot) => RootLookup::AtSlot(*slot),
            CoreStateId::Root(root) => RootLookup::Known(*root),
        }
    }

    /// What the chain answered when asked for the state root at a slot,
    /// as the result of the request: the root, or that there is none.
    pub fn root_at_slot(slot: Slot, answer: Option<Hash256>) -> (root: Result<
        Hash256,
        CustomNotFound,
    >)
        ensures
            match answer {
                Some(found) => root == Ok::<Hash256, CustomNotFound>(found),
                None => root is Err && root.unwrap_err().0@ == "beacon state at slot "@
                    + digits_of(slot.0 as nat),
            },
    {
        match answer {
            Some(found) => Ok(found),
            None => Err(
                CustomNotFound(
                    String::from_str("beacon state at slot ").concat(format_u64(slot.0).as_str()),
                ),
            ),
        }
    }

    /// The slot that goes with the root when the state itself is fetched:
    /// the slot of a request by slot, and none for any other request.
    pub fn state_slot(&self) -> (slot: Option<Slot>)
        ensures
            slot == (match self.0 {
                CoreStateId::Slot(s) => Some(s),
                _ => None,
            }),
    {
        match &self.0 {
            CoreStateId::Slot(slot) => Some(*slot),
            _ => None,
        }
    }

    /// Reads a state identifier from a request.
    pub fn parse(text: &str) -> (id: Result<StateId, String>)
        ensures
            id is Ok == is_identifier(text@),
            id matches Ok(found) ==> found.0.is_named_by(text@),
            id matches Err(message) ==> message@ == text@ + (if has_0x_prefix(text@) {
                " cannot be parsed as a root"@
            } else {
                " cannot be parsed as a slot"@
            }),
    {
        match CoreStateId::parse(text) {
            Ok(id) => Ok(StateId(id)),
            Err(e) => Err(e),
        }
    }
}

impl std::str::FromStr for StateId {
    type Err = String;

    /// Reads the identifier as `parse` does.
    fn from_str(s: &str) -> (id: Result<Self, String>)
        ensures
            id is Ok == is_identifier(s@),
            id matches Ok(found) ==> found.0.is_named_by(s@),
            id matches Err(message) ==> message@ == s@ + (if has_0x_prefix(s@) {
                " cannot be parsed as a root"@
            } else {
                " cannot be parsed as a slot"@
            }),
    {
        StateId::parse(s)
    }
}

} // verus!
