//! Verdicts on a candidate signing: safe, or unsafe with the rule it breaks.

use crate::decimal::{digits_of, format_u64};
use crate::types::{Epoch, Hash256, Slot};
use vstd::prelude::*;
use vstd::string::StringExecFns;

verus! {

/// Why a block proposal must not be signed.
#[derive(Clone, Copy, Debug, PartialEq, Eq)]
pub enum InvalidBlock {
    /// The slot is not above the highest slot already signed.
    SlotViolatesLowerBound { proposed: Slot, bound: Slot },
    /// Another proposal is on record for the same slot.
    DoubleBlockProposal { existing_root: Option<Hash256>, proposed_root: Option<Hash256> },
}

/// Why an attestation must not be signed.
#[derive(Clone, Copy, Debug, PartialEq, Eq)]
pub enum InvalidAttestation {
    /// The source epoch is above the target epoch.
    SourceExceedsTarget,
    /// The source epoch is below the highest source already signed.
    SourceViolatesLowerBound,
    /// The target epoch is not above the highest target already signed.
    TargetViolatesLowerBound { proposed: Epoch, bound: Epoch },
    /// A recorded attestation starts before the candidate and ends after it.
    NewSurroundsPrev { prev_source: Epoch, prev_target: Epoch },
    /// A recorded attestation starts after the candidate and ends before it.
    PrevSurroundsNew { prev_source: Epoch, prev_target: Epoch },
    /// Another attestation is on record for the same target.
    DoubleVote { existing_root: Option<Hash256>, proposed_root: Option<Hash256> },
}

/// The message may be signed.
#[derive(Clone, Copy, Debug, PartialEq, Eq, Structural)]
pub enum Safe {
    /// The message is new and is now on record.
    Valid,
    /// The very same message is already on record.
    SameData,
}

/// The message must not be signed.
#[derive(Clone, Copy, Debug, PartialEq, Eq)]
pub enum NotSafe {
    /// The validator was never registered with the store.
    UnregisteredValidator,
    InvalidBlock(InvalidBlock),
    InvalidAttestation(InvalidAttestation),
    /// The record held for the validator breaks the store's own invariants.
    ConsistencyError,
}

/// A sentence made of two pieces of text around two numbers.
pub open spec fn sentence(head: Seq<char>, first: u64, middle: Seq<char>, second: u64) -> Seq<char> {
    head + digits_of(first as nat) + middle + digits_of(second as nat)
}

fn write_sentence(head: &str, first: u64, middle: &str, second: u64) -> (text: String)
    ensures
        text@ == sentence(head@, first, middle@, second),
{
    String::from_str(head).concat(format_u64(first).as_str()).concat(middle).concat(
        format_u64(second).as_str(),
    )
}

impl InvalidBlock {
    /// The reason in words, with the slots it is about.
    pub open spec fn reason(self) -> Seq<char> {
        match self {
            InvalidBlock::SlotViolatesLowerBound { proposed, bound } => sentence(
                "block slot "@,
                proposed.0,
                " is not above the lower bound "@,
                bound.0,
            ),
            InvalidBlock::DoubleBlockProposal { .. } => "another block is on record for this slot"@,
        }
    }

    pub fn message(&self) -> (text: String)
        ensures
            text@ == self.reason(),
    {
        match self {
            InvalidBlock::SlotViolatesLowerBound { proposed, bound } => write_sentence(
                "block slot ",
                proposed.0,
                " is not above the lower bound ",
                bound.0,
            ),
            InvalidBlock::DoubleBlockProposal { .. } => String::from_str(
                "another block is on record for this slot",
            ),
        }
    }
}

impl InvalidAttestation {
    /// The reason in words, with the epochs it is about.
    pub open spec fn reason(self) -> Seq<char> {
        match self {
            InvalidAttestation::SourceExceedsTarget => "attestation source is above its target"@,
            InvalidAttestation::SourceViolatesLowerBound =>
                "attestation source is below the lower bound"@,
            InvalidAttestation::TargetViolatesLowerBound { proposed, bound } => sentence(
                "attestation target "@,
                proposed.0,
                " is not above the lower bound "@,
                bound.0,
            ),
            InvalidAttestation::NewSurroundsPrev { prev_source, prev_target } => sentence(
                "attestation lies inside the one on record from "@,
                prev_source.0,
                " to "@,
                prev_target.0,
            ),
            InvalidAttestation::PrevSurroundsNew { prev_source, prev_target } => sentence(
                "attestation lies around the one on record from "@,
                prev_source.0,
                " to "@,
                prev_target.0,
            ),
            InvalidAttestation::DoubleVote { .. } =>
                "another attestation is on record for this target"@,
        }
    }

    pub fn message(&self) -> (text: String)
        ensures
            text@ == self.reason(),
    {
        match self {
            InvalidAttestation::SourceExceedsTarget => String::from_str(
                "attestation source is above its target",
            ),
            InvalidAttestation::SourceViolatesLowerBound => String::from_str(
                "attestation source is below the lower bound",
            ),
            InvalidAttestation::TargetViolatesLowerBound { proposed, bound } => write_sentence(
                "attestation target ",
                proposed.0,
                " is not above the lower bound ",
                bound.0,
            ),
            InvalidAttestation::NewSurroundsPrev { prev_source, prev_target } => write_sentence(
                "attestation lies inside the one on record from ",
                prev_source.0,
                " to ",
                prev_target.0,
            ),
            InvalidAttestation::PrevSurroundsNew { prev_source, prev_target } => write_sentence(
                "attestation lies around the one on record from ",
                prev_source.0,
                " to ",
                prev_target.0,
            ),
            InvalidAttestation::DoubleVote { .. } => String::from_str(
                "another attestation is on record for this target",
            ),
        }
    }
}

impl NotSafe {
    /// The reason in words, with the bound it is about.
    pub open spec fn reason(self) -> Seq<char> {
        match self {
            NotSafe::UnregisteredValidator => "validator is not registered"@,
            NotSafe::InvalidBlock(e) => e.reason(),
            NotSafe::InvalidAttestation(e) => e.reason(),
            NotSafe::ConsistencyError => "the record of the validator is inconsistent"@,
        }
    }

    /// The reason as text fit for a log.
    pub fn message(&self) -> (text: String)
        ensures
            text@ == self.reason(),
    {
        match self {
            NotSafe::UnregisteredValidator => String::from_str("validator is not registered"),
            NotSafe::InvalidBlock(e) => e.message(),
            NotSafe::InvalidAttestation(e) => e.message(),
            NotSafe::ConsistencyError => String::from_str(
                "the record of the validator is inconsistent",
            ),
        }
    }
}

} // verus!
