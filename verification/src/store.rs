//! The store as a mathematical value, and the rules that decide what may be
//! signed: the model that the slashing database implements.

use crate::interchange::{InterchangeFormat, SignedAttestation, SignedBlock};
use crate::lower_bound::{epoch_le, max_epoch, max_slot, slot_le, LowerBound};
use crate::signing::{InvalidAttestation, InvalidBlock, NotSafe, Safe};
use crate::types::{Epoch, Hash256, PublicKey, Slot};
use vstd::prelude::*;

verus! {

/// What the store holds for one validator, as mathematical values.
pub struct ValidatorState {
    pub pubkey: PublicKey,
    pub lower_bound: LowerBound,
    pub signed_blocks: Seq<SignedBlock>,
    pub signed_attestations: Seq<SignedAttestation>,
}

impl ValidatorState {
    /// The state of a validator that has just been registered.
    pub open spec fn fresh(pubkey: PublicKey) -> ValidatorState {
        ValidatorState {
            pubkey,
            lower_bound: LowerBound::empty(),
            signed_blocks: Seq::empty(),
            signed_attestations: Seq::empty(),
        }
    }
}

impl SignedAttestation {
    /// This attestation starts before `source` and ends after `target`.
    pub open spec fn starts_before_and_ends_after(self, source: Epoch, target: Epoch) -> bool {
        self.source_epoch.0 < source.0 && target.0 < self.target_epoch.0
    }

    /// This attestation starts after `source` and ends before `target`.
    pub open spec fn starts_after_and_ends_before(self, source: Epoch, target: Epoch) -> bool {
        source.0 < self.source_epoch.0 && self.target_epoch.0 < target.0
    }
}

/// The position of the first block at `slot`, looking from position `from` on.
pub open spec fn first_block_at(history: Seq<SignedBlock>, slot: Slot, from: int) -> Option<int>
    decreases history.len() - from,
{
    if from < 0 || from >= history.len() {
        None
    } else if history[from].slot == slot {
        Some(from)
    } else {
        first_block_at(history, slot, from + 1)
    }
}

/// The position of the first attestation that starts before `source` and
/// ends after `target`, looking from position `from` on.
pub open spec fn first_around(
    history: Seq<SignedAttestation>,
    source: Epoch,
    target: Epoch,
    from: int,
) -> Option<int>
    decreases history.len() - from,
{
    if from < 0 || from >= history.len() {
        None
    } else if history[from].starts_before_and_ends_after(source, target) {
        Some(from)
    } else {
        first_around(history, source, target, from + 1)
    }
}

/// The position of the first attestation that starts after `source` and
/// ends before `target`, looking from position `from` on.
pub open spec fn first_within(
    history: Seq<SignedAttestation>,
    source: Epoch,
    target: Epoch,
    from: int,
) -> Option<int>
    decreases history.len() - from,
{
    if from < 0 || from >= history.len() {
        None
    } else if history[from].starts_after_and_ends_before(source, target) {
        Some(from)
    } else {
        first_within(history, source, target, from + 1)
    }
}

/// The position of the first attestation whose target is `target`, looking
/// from position `from` on.
pub open spec fn first_with_target(history: Seq<SignedAttestation>, target: Epoch, from: int) -> Option<
    int,
>
    decreases history.len() - from,
{
    if from < 0 || from >= history.len() {
        None
    } else if history[from].target_epoch == target {
        Some(from)
    } else {
        first_with_target(history, target, from + 1)
    }
}

/// The verdict on a block proposal at `slot` by a registered validator in
/// state `state`. The rules apply in this order:
/// the record must be consistent; the slot must be above the bound; in
/// complete mode a block on record at the same slot makes the candidate a
/// replay (both roots known and equal) or a double proposal.
pub open spec fn block_verdict(
    mode: InterchangeFormat,
    state: ValidatorState,
    slot: Slot,
    signing_root: Option<Hash256>,
) -> Result<Safe, NotSafe> {
    let bound = state.lower_bound.block_proposal_slot;
    let prior = first_block_at(state.signed_blocks, slot, 0);
    if !state.lower_bound.is_consistent() {
        Err(NotSafe::ConsistencyError)
    } else if bound is Some && slot.0 <= bound.unwrap().0 {
        Err(
            NotSafe::InvalidBlock(
                InvalidBlock::SlotViolatesLowerBound { proposed: slot, bound: bound.unwrap() },
            ),
        )
    } else if mode == InterchangeFormat::Complete && prior is Some {
        let existing_root = state.signed_blocks[prior.unwrap()].signing_root;
        if existing_root is Some && existing_root == signing_root {
            Ok(Safe::SameData)
        } else {
            Err(
                NotSafe::InvalidBlock(
                    InvalidBlock::DoubleBlockProposal { existing_root, proposed_root: signing_root },
                ),
            )
        }
    } else {
        Ok(Safe::Valid)
    }
}

/// The state of a validator after a valid block proposal at `slot`.
pub open spec fn with_block(
    mode: InterchangeFormat,
    state: ValidatorState,
    slot: Slot,
    signing_root: Option<Hash256>,
) -> ValidatorState {
    ValidatorState {
        pubkey: state.pubkey,
        lower_bound: LowerBound {
            block_proposal_slot: max_slot(state.lower_bound.block_proposal_slot, Some(slot)),
            attestation_source_epoch: state.lower_bound.attestation_source_epoch,
            attestation_target_epoch: state.lower_bound.attestation_target_epoch,
        },
        signed_blocks: if mode == InterchangeFormat::Complete {
            state.signed_blocks.push(SignedBlock { slot, signing_root })
        } else {
            state.signed_blocks
        },
        signed_attestations: state.signed_attestations,
    }
}

/// The verdict on an attestation from `source` to `target` by a registered
/// validator in state `state`. The rules apply in this order: the record
/// must be consistent; the source must not exceed the target; the target
/// must be above the bound; the source must not be below the bound; in
/// complete mode the candidate is held against the history: an attestation
/// on record that starts before it and ends after it, one that starts after
/// it and ends before it, and one with the same target, which makes the
/// candidate a replay (both roots known and equal) or a double vote.
pub open spec fn attestation_verdict(
    mode: InterchangeFormat,
    state: ValidatorState,
    source: Epoch,
    target: Epoch,
    signing_root: Option<Hash256>,
) -> Result<Safe, NotSafe> {
    let source_bound = state.lower_bound.attestation_source_epoch;
    let target_bound = state.lower_bound.attestation_target_epoch;
    let history = state.signed_attestations;
    let around = first_around(history, source, target, 0);
    let within = first_within(history, source, target, 0);
    let same = first_with_target(history, target, 0);
    let complete = mode == InterchangeFormat::Complete;
    if !state.lower_bound.is_consistent() {
        Err(NotSafe::ConsistencyError)
    } else if source.0 > target.0 {
        Err(NotSafe::InvalidAttestation(InvalidAttestation::SourceExceedsTarget))
    } else if target_bound is Some && target.0 <= target_bound.unwrap().0 {
        Err(
            NotSafe::InvalidAttestation(
                InvalidAttestation::TargetViolatesLowerBound {
                    proposed: target,
                    bound: target_bound.unwrap(),
                },
            ),
        )
    } else if source_bound is Some && source.0 < source_bound.unwrap().0 {
        Err(NotSafe::InvalidAttestation(InvalidAttestation::SourceViolatesLowerBound))
    } else if complete && around is Some {
        let prev = history[around.unwrap()];
        Err(
            NotSafe::InvalidAttestation(
                InvalidAttestation::NewSurroundsPrev {
                    prev_source: prev.source_epoch,
                    prev_target: prev.target_epoch,
                },
            ),
        )
    } else if complete && within is Some {
        let prev = history[within.unwrap()];
        Err(
            NotSafe::InvalidAttestation(
                InvalidAttestation::PrevSurroundsNew {
                    prev_source: prev.source_epoch,
                    prev_target: prev.target_epoch,
                },
            ),
        )
    } else if complete && same is Some {
        let existing_root = history[same.unwrap()].signing_root;
        if existing_root is Some && existing_root == signing_root {
            Ok(Safe::SameData)
        } else {
            Err(
                NotSafe::InvalidAttestation(
                    InvalidAttestation::DoubleVote { existing_root, proposed_root: signing_root },
                ),
            )
        }
    } else {
        Ok(Safe::Valid)
    }
}

/// The state of a validator after a valid attestation from `source` to `target`.
pub open spec fn with_attestation(
    mode: InterchangeFormat,
    state: ValidatorState,
    source: Epoch,
    target: Epoch,
    signing_root: Option<Hash256>,
) -> ValidatorState {
    ValidatorState {
        pubkey: state.pubkey,
        lower_bound: LowerBound {
            block_proposal_slot: state.lower_bound.block_proposal_slot,
            attestation_source_epoch: max_epoch(
                state.lower_bound.attestation_source_epoch,
                Some(source),
            ),
            attestation_target_epoch: max_epoch(
                state.lower_bound.attestation_target_epoch,
                Some(target),
            ),
        },
        signed_blocks: state.signed_blocks,
        signed_attestations: if mode == InterchangeFormat::Complete {
            state.signed_attestations.push(
                SignedAttestation { source_epoch: source, target_epoch: target, signing_root },
            )
        } else {
            state.signed_attestations
        },
    }
}

/// The position of the first record for `pubkey`, looking from position `from` on.
pub open spec fn position_of(validators: Seq<ValidatorState>, pubkey: PublicKey, from: int) -> Option<
    int,
>
    decreases validators.len() - from,
{
    if from < 0 || from >= validators.len() {
        None
    } else if validators[from].pubkey == pubkey {
        Some(from)
    } else {
        position_of(validators, pubkey, from + 1)
    }
}

/// What a store holds, as mathematical values: its mode, the genesis
/// validators root it is bound to, if any, and the validators in the order
/// in which they were registered.
pub struct Store {
    pub mode: InterchangeFormat,
    pub genesis_validators_root: Option<Hash256>,
    pub validators: Seq<ValidatorState>,
}

impl Store {
    /// A store with no validators, bound to no chain.
    pub open spec fn empty(mode: InterchangeFormat) -> Store {
        Store { mode, genesis_validators_root: None, validators: Seq::empty() }
    }

    /// No public key is registered twice, and a store in minimal mode holds
    /// no history.
    pub open spec fn wf(self) -> bool {
        &&& forall|i: int, j: int|
            0 <= i < j < self.validators.len() ==> self.validators[i].pubkey
                != self.validators[j].pubkey
        &&& self.mode == InterchangeFormat::Minimal ==> forall|i: int|
            0 <= i < self.validators.len() ==> {
                &&& (#[trigger] self.validators[i]).signed_blocks.len() == 0
                &&& self.validators[i].signed_attestations.len() == 0
            }
    }

    pub open spec fn is_registered(self, pubkey: PublicKey) -> bool {
        position_of(self.validators, pubkey, 0) is Some
    }

    /// The state of a registered validator.
    pub open spec fn state_of(self, pubkey: PublicKey) -> ValidatorState {
        self.validators[position_of(self.validators, pubkey, 0).unwrap()]
    }

    /// The lower bound of a validator, if it is registered.
    pub open spec fn lower_bound_of(self, pubkey: PublicKey) -> Option<LowerBound> {
        if self.is_registered(pubkey) {
            Some(self.state_of(pubkey).lower_bound)
        } else {
            None
        }
    }

    /// The store with the state of a registered validator replaced.
    pub open spec fn with_state(self, pubkey: PublicKey, state: ValidatorState) -> Store {
        Store {
            mode: self.mode,
            genesis_validators_root: self.genesis_validators_root,
            validators: self.validators.update(
                position_of(self.validators, pubkey, 0).unwrap(),
                state,
            ),
        }
    }

    /// The store after `pubkey` was registered: unchanged where it was
    /// registered before, else with a fresh record at the end.
    pub open spec fn register(self, pubkey: PublicKey) -> Store {
        if self.is_registered(pubkey) {
            self
        } else {
            Store {
                mode: self.mode,
                genesis_validators_root: self.genesis_validators_root,
                validators: self.validators.push(ValidatorState::fresh(pubkey)),
            }
        }
    }

    /// The verdict on a block proposal: an unregistered validator may sign
    /// nothing; for a registered one `block_verdict` decides.
    pub open spec fn check_block(
        self,
        pubkey: PublicKey,
        slot: Slot,
        signing_root: Option<Hash256>,
    ) -> Result<Safe, NotSafe> {
        if !self.is_registered(pubkey) {
            Err(NotSafe::UnregisteredValidator)
        } else {
            block_verdict(self.mode, self.state_of(pubkey), slot, signing_root)
        }
    }

    /// The store after a block proposal was checked: changed only where the
    /// verdict is `Valid`.
    pub open spec fn after_block(
        self,
        pubkey: PublicKey,
        slot: Slot,
        signing_root: Option<Hash256>,
    ) -> Store {
        if self.check_block(pubkey, slot, signing_root) == Ok::<Safe, NotSafe>(Safe::Valid) {
            self.with_state(pubkey, with_block(self.mode, self.state_of(pubkey), slot, signing_root))
        } else {
            self
        }
    }

    /// The verdict on an attestation: an unregistered validator may sign
    /// nothing; for a registered one `attestation_verdict` decides.
    pub open spec fn check_attestation(
        self,
        pubkey: PublicKey,
        source: Epoch,
        target: Epoch,
        signing_root: Option<Hash256>,
    ) -> Result<Safe, NotSafe> {
        if !self.is_registered(pubkey) {
            Err(NotSafe::UnregisteredValidator)
        } else {
            attestation_verdict(self.mode, self.state_of(pubkey), source, target, signing_root)
        }
    }

    /// The store after an attestation was checked: changed only where the
    /// verdict is `Valid`.
    pub open spec fn after_attestation(
        self,
        pubkey: PublicKey,
        source: Epoch,
        target: Epoch,
        signing_root: Option<Hash256>,
    ) -> Store {
        if self.check_attestation(pubkey, source, target, signing_root) == Ok::<Safe, NotSafe>(
            Safe::Valid,
        ) {
            self.with_state(
                pubkey,
                with_attestation(self.mode, self.state_of(pubkey), source, target, signing_root),
            )
        } else {
            self
        }
    }
}

impl ValidatorState {
    /// No block on record lies above the block bound, and no attestation on
    /// record has a target above the target bound.
    pub open spec fn bound_covers_history(self) -> bool {
        &&& forall|i: int|
            0 <= i < self.signed_blocks.len() ==> slot_le(
                Some((#[trigger] self.signed_blocks[i]).slot),
                self.lower_bound.block_proposal_slot,
            )
        &&& forall|i: int|
            0 <= i < self.signed_attestations.len() ==> epoch_le(
                Some((#[trigger] self.signed_attestations[i]).target_epoch),
                self.lower_bound.attestation_target_epoch,
            )
    }
}

impl Store {
    /// Every validator of `self` is registered in `later`, with a bound
    /// that is pointwise at least the one it has in `self`.
    pub open spec fn precedes(self, later: Store) -> bool {
        forall|pubkey: PublicKey| #[trigger]
            self.is_registered(pubkey) ==> later.is_registered(pubkey) && self.state_of(
                pubkey,
            ).lower_bound.le(later.state_of(pubkey).lower_bound)
    }

    /// For every validator the bound covers the history.
    pub open spec fn bounds_cover_history(self) -> bool {
        forall|i: int|
            0 <= i < self.validators.len() ==> (#[trigger] self.validators[i]).bound_covers_history()
    }
}

/// A position found by `position_of` holds the key, and no earlier one at
/// or after `from` does.
pub proof fn lemma_position_of(validators: Seq<ValidatorState>, pubkey: PublicKey, from: int)
    requires
        0 <= from,
    ensures
        position_of(validators, pubkey, from) matches Some(p) ==> from <= p < validators.len()
            && validators[p].pubkey == pubkey,
        position_of(validators, pubkey, from) is None ==> forall|i: int|
            from <= i < validators.len() ==> validators[i].pubkey != pubkey,
    decreases validators.len() - from,
{
    if from < validators.len() && validators[from].pubkey != pubkey {
        lemma_position_of(validators, pubkey, from + 1);
    }
}

/// A key that a record holds is found, at that record or an earlier one.
pub proof fn lemma_position_of_finds(
    validators: Seq<ValidatorState>,
    pubkey: PublicKey,
    from: int,
    at: int,
)
    requires
        0 <= from <= at < validators.len(),
        validators[at].pubkey == pubkey,
    ensures
        position_of(validators, pubkey, from) matches Some(p) && from <= p <= at
            && validators[p].pubkey == pubkey,
    decreases validators.len() - from,
{
    if validators[from].pubkey != pubkey {
        lemma_position_of_finds(validators, pubkey, from + 1, at);
    }
}

/// Where no key occurs twice, the record found for a key is the one that
/// holds it.
pub proof fn lemma_position_of_unique(validators: Seq<ValidatorState>, at: int)
    requires
        0 <= at < validators.len(),
        forall|i: int, j: int|
            0 <= i < j < validators.len() ==> validators[i].pubkey != validators[j].pubkey,
    ensures
        position_of(validators, validators[at].pubkey, 0) == Some(at),
{
    lemma_position_of_finds(validators, validators[at].pubkey, 0, at);
}

impl Store {
    /// Registration keeps the invariant, registers the key, keeps every
    /// record that was there, and gives a new validator a fresh record.
    pub proof fn lemma_register(self, pubkey: PublicKey)
        requires
            self.wf(),
        ensures
            self.register(pubkey).wf(),
            self.register(pubkey).is_registered(pubkey),
            self.is_registered(pubkey) ==> self.register(pubkey) == self,
            !self.is_registered(pubkey) ==> self.register(pubkey).state_of(pubkey)
                == ValidatorState::fresh(pubkey),
            self.register(pubkey).state_of(pubkey).pubkey == pubkey,
            forall|other: PublicKey|
                other != pubkey ==> self.register(pubkey).is_registered(other)
                    == self.is_registered(other),
            forall|other: PublicKey|
                other != pubkey && self.is_registered(other) ==> self.register(pubkey).state_of(
                    other,
                ) == self.state_of(other),
            self.precedes(self.register(pubkey)),
            self.bounds_cover_history() ==> self.register(pubkey).bounds_cover_history(),
    {
        let after = self.register(pubkey);
        lemma_position_of(self.validators, pubkey, 0);
        if !self.is_registered(pubkey) {
            assert forall|i: int| 0 <= i < after.validators.len() implies after.validators[i] == (
            if i < self.validators.len() {
                self.validators[i]
            } else {
                ValidatorState::fresh(pubkey)
            }) by {}
            if self.bounds_cover_history() {
                assert forall|i: int| 0 <= i < after.validators.len() implies (
                #[trigger] after.validators[i]).bound_covers_history() by {
                    if i < self.validators.len() {
                        assert(self.validators[i].bound_covers_history());
                    }
                }
            }
            let last = self.validators.len() as int;
            lemma_position_of_finds(after.validators, pubkey, 0, last);
            lemma_position_of(after.validators, pubkey, 0);
            assert forall|other: PublicKey| other != pubkey implies after.is_registered(other)
                == self.is_registered(other) && (self.is_registered(other) ==> after.state_of(
                other,
            ) == self.state_of(other)) by {
                lemma_position_of(self.validators, other, 0);
                lemma_position_of(after.validators, other, 0);
                if self.is_registered(other) {
                    let p = position_of(self.validators, other, 0).unwrap();
                    lemma_position_of_unique(after.validators, p);
                }
            }
        }
    }

    /// Replacing the state of a registered validator by one with the same
    /// key keeps the keys, changes what is found for that key, and leaves
    /// the other validators alone.
    pub proof fn lemma_with_state(self, pubkey: PublicKey, state: ValidatorState)
        requires
            self.wf(),
            self.is_registered(pubkey),
            state.pubkey == pubkey,
        ensures
            self.with_state(pubkey, state).is_registered(pubkey),
            self.with_state(pubkey, state).state_of(pubkey) == state,
            self.with_state(pubkey, state).validators.len() == self.validators.len(),
            forall|other: PublicKey|
                self.with_state(pubkey, state).is_registered(other) == self.is_registered(other),
            forall|other: PublicKey|
                other != pubkey && self.is_registered(other) ==> self.with_state(
                    pubkey,
                    state,
                ).state_of(other) == self.state_of(other),
            forall|i: int, j: int|
                0 <= i < j < self.validators.len() ==> self.with_state(
                    pubkey,
                    state,
                ).validators[i].pubkey != self.with_state(pubkey, state).validators[j].pubkey,
            (self.mode == InterchangeFormat::Minimal ==> state.signed_blocks.len() == 0
                && state.signed_attestations.len() == 0) ==> self.with_state(pubkey, state).wf(),
            self.state_of(pubkey).lower_bound.le(state.lower_bound) ==> self.precedes(
                self.with_state(pubkey, state),
            ),
            self.bounds_cover_history() && state.bound_covers_history() ==> self.with_state(
                pubkey,
                state,
            ).bounds_cover_history(),
    {
        let after = self.with_state(pubkey, state);
        lemma_position_of(self.validators, pubkey, 0);
        let p = position_of(self.validators, pubkey, 0).unwrap();
        assert forall|i: int| 0 <= i < after.validators.len() implies #[trigger] after.validators[i]
            == (if i == p {
            state
        } else {
            self.validators[i]
        }) by {}
        if self.bounds_cover_history() && state.bound_covers_history() {
            assert forall|i: int| 0 <= i < after.validators.len() implies (
            #[trigger] after.validators[i]).bound_covers_history() by {
                if i != p {
                    assert(self.validators[i].bound_covers_history());
                }
            }
        }
        assert forall|i: int| 0 <= i < self.validators.len() implies after.validators[i].pubkey
            == self.validators[i].pubkey by {}
        lemma_position_of_unique(after.validators, p);
        assert forall|other: PublicKey|
            after.is_registered(other) == self.is_registered(other) && (other != pubkey
                && self.is_registered(other) ==> after.state_of(other) == self.state_of(
                other,
            )) by {
            lemma_position_of(self.validators, other, 0);
            lemma_position_of(after.validators, other, 0);
            if self.is_registered(other) {
                let q = position_of(self.validators, other, 0).unwrap();
                lemma_position_of_unique(after.validators, q);
            }
            if after.is_registered(other) {
                let q = position_of(after.validators, other, 0).unwrap();
                lemma_position_of_unique(self.validators, q);
            }
        }
    }
}

} // verus!
