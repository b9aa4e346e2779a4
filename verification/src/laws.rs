//! What holds of every store, whatever was done to it: bounds only rise,
//! a safe verdict leaves the bound at or above what was signed, and nothing
//! is declared valid twice or around something valid.

use crate::lower_bound::{epoch_le, slot_le};
use crate::signing::{NotSafe, Safe};
use crate::store::{
    attestation_verdict, block_verdict, first_block_at, first_with_target, lemma_position_of,
    position_of, with_attestation, with_block, Store, ValidatorState,
};
use crate::types::{Epoch, Hash256, PublicKey, Slot};
use vstd::prelude::*;

verus! {

/// No block is found at a slot above the bound of a state whose bound
/// covers its history.
proof fn lemma_no_block_above_bound(state: ValidatorState, slot: Slot, from: int)
    requires
        0 <= from,
        state.bound_covers_history(),
        !slot_le(Some(slot), state.lower_bound.block_proposal_slot),
    ensures
        first_block_at(state.signed_blocks, slot, from) is None,
    decreases state.signed_blocks.len() - from,
{
    if from < state.signed_blocks.len() {
        assert(slot_le(
            Some(state.signed_blocks[from].slot),
            state.lower_bound.block_proposal_slot,
        ));
        lemma_no_block_above_bound(state, slot, from + 1);
    }
}

/// No attestation is found with a target above the bound of a state whose
/// bound covers its history.
proof fn lemma_no_target_above_bound(state: ValidatorState, target: Epoch, from: int)
    requires
        0 <= from,
        state.bound_covers_history(),
        !epoch_le(Some(target), state.lower_bound.attestation_target_epoch),
    ensures
        first_with_target(state.signed_attestations, target, from) is None,
    decreases state.signed_attestations.len() - from,
{
    if from < state.signed_attestations.len() {
        assert(epoch_le(
            Some(state.signed_attestations[from].target_epoch),
            state.lower_bound.attestation_target_epoch,
        ));
        lemma_no_target_above_bound(state, target, from + 1);
    }
}

/// The order on stores is reflexive and transitive: what holds from one
/// read of a bound to the next holds between any two reads.
pub proof fn law_precedes_is_preorder(a: Store, b: Store, c: Store)
    ensures
        a.precedes(a),
        a.precedes(b) && b.precedes(c) ==> a.precedes(c),
{
    if a.precedes(b) && b.precedes(c) {
        assert forall|pubkey: PublicKey| #[trigger] a.is_registered(pubkey) implies c.is_registered(
            pubkey,
        ) && a.state_of(pubkey).lower_bound.le(c.state_of(pubkey).lower_bound) by {
            assert(b.is_registered(pubkey));
        }
    }
}

/// Bounds only rise: registering a validator, checking a block and
/// checking an attestation each lead to a store in which every validator
/// is still registered and no field of a bound is lower or has gone absent.
pub proof fn law_bounds_only_rise(
    store: Store,
    pubkey: PublicKey,
    slot: Slot,
    source: Epoch,
    target: Epoch,
    signing_root: Option<Hash256>,
)
    requires
        store.wf(),
    ensures
        store.precedes(store.register(pubkey)),
        store.precedes(store.after_block(pubkey, slot, signing_root)),
        store.precedes(store.after_attestation(pubkey, source, target, signing_root)),
        store.register(pubkey).wf(),
        store.after_block(pubkey, slot, signing_root).wf(),
        store.after_attestation(pubkey, source, target, signing_root).wf(),
{
    store.lemma_register(pubkey);
    if store.is_registered(pubkey) {
        lemma_position_of(store.validators, pubkey, 0);
        let state = store.state_of(pubkey);
        store.lemma_with_state(pubkey, with_block(store.mode, state, slot, signing_root));
        store.lemma_with_state(
            pubkey,
            with_attestation(store.mode, state, source, target, signing_root),
        );
        let p = position_of(store.validators, pubkey, 0).unwrap();
        let blocked = store.after_block(pubkey, slot, signing_root);
        let attested = store.after_attestation(pubkey, source, target, signing_root);
        assert(forall|i: int|
            0 <= i < store.validators.len() && i != p ==> blocked.validators[i]
                == store.validators[i]);
        assert(forall|i: int|
            0 <= i < store.validators.len() && i != p ==> attested.validators[i]
                == store.validators[i]);
    }
}

/// After a valid block at a slot the block bound is that slot or higher,
/// and after a valid attestation the source and target bounds are its
/// source and target or higher.
pub proof fn law_valid_write_raises_bound(
    store: Store,
    pubkey: PublicKey,
    slot: Slot,
    source: Epoch,
    target: Epoch,
    signing_root: Option<Hash256>,
)
    requires
        store.wf(),
    ensures
        store.check_block(pubkey, slot, signing_root) == Ok::<Safe, NotSafe>(Safe::Valid)
            ==> slot_le(
            Some(slot),
            store.after_block(pubkey, slot, signing_root).state_of(
                pubkey,
            ).lower_bound.block_proposal_slot,
        ),
        store.check_attestation(pubkey, source, target, signing_root) == Ok::<Safe, NotSafe>(
            Safe::Valid,
        ) ==> {
            let bound = store.after_attestation(pubkey, source, target, signing_root).state_of(
                pubkey,
            ).lower_bound;
            &&& epoch_le(Some(source), bound.attestation_source_epoch)
            &&& epoch_le(Some(target), bound.attestation_target_epoch)
        },
{
    if store.is_registered(pubkey) {
        let state = store.state_of(pubkey);
        lemma_position_of(store.validators, pubkey, 0);
        store.lemma_with_state(pubkey, with_block(store.mode, state, slot, signing_root));
        store.lemma_with_state(
            pubkey,
            with_attestation(store.mode, state, source, target, signing_root),
        );
    }
}

/// In a store whose bounds cover its history a safe verdict is always
/// `Valid`: a replay is met only where the history holds something the
/// bound does not cover.
pub proof fn law_safe_is_valid_where_bounds_cover_history(
    store: Store,
    pubkey: PublicKey,
    slot: Slot,
    source: Epoch,
    target: Epoch,
    signing_root: Option<Hash256>,
)
    requires
        store.wf(),
        store.bounds_cover_history(),
    ensures
        store.check_block(pubkey, slot, signing_root) is Ok ==> store.check_block(
            pubkey,
            slot,
            signing_root,
        ) == Ok::<Safe, NotSafe>(Safe::Valid),
        store.check_attestation(pubkey, source, target, signing_root) is Ok
            ==> store.check_attestation(pubkey, source, target, signing_root) == Ok::<
            Safe,
            NotSafe,
        >(Safe::Valid),
{
    if store.is_registered(pubkey) {
        lemma_position_of(store.validators, pubkey, 0);
        let state = store.state_of(pubkey);
        assert(state.bound_covers_history());
        if block_verdict(store.mode, state, slot, signing_root) is Ok {
            lemma_no_block_above_bound(state, slot, 0);
        }
        if attestation_verdict(store.mode, state, source, target, signing_root) is Ok {
            lemma_no_target_above_bound(state, target, 0);
        }
    }
}

/// Registering a validator, checking a block and checking an attestation
/// each keep the bounds covering the history, and the empty store starts
/// that way.
pub proof fn law_bounds_keep_covering_history(
    store: Store,
    pubkey: PublicKey,
    slot: Slot,
    source: Epoch,
    target: Epoch,
    signing_root: Option<Hash256>,
)
    requires
        store.wf(),
        store.bounds_cover_history(),
    ensures
        Store::empty(store.mode).bounds_cover_history(),
        store.register(pubkey).bounds_cover_history(),
        store.after_block(pubkey, slot, signing_root).bounds_cover_history(),
        store.after_attestation(pubkey, source, target, signing_root).bounds_cover_history(),
{
    if store.is_registered(pubkey) {
        lemma_position_of(store.validators, pubkey, 0);
        let p = position_of(store.validators, pubkey, 0).unwrap();
        let state = store.state_of(pubkey);
        assert(state.bound_covers_history());
        let blocked = store.after_block(pubkey, slot, signing_root);
        assert forall|i: int| 0 <= i < blocked.validators.len() implies (
        #[trigger] blocked.validators[i]).bound_covers_history() by {
            if i != p {
                assert(blocked.validators[i] == store.validators[i]);
            }
        }
        let attested = store.after_attestation(pubkey, source, target, signing_root);
        assert forall|i: int| 0 <= i < attested.validators.len() implies (
        #[trigger] attested.validators[i]).bound_covers_history() by {
            if i != p {
                assert(attested.validators[i] == store.validators[i]);
            }
        }
    } else {
        let registered = store.register(pubkey);
        assert forall|i: int| 0 <= i < registered.validators.len() implies (
        #[trigger] registered.validators[i]).bound_covers_history() by {
            if i < store.validators.len() {
                assert(registered.validators[i] == store.validators[i]);
            }
        }
    }
}

/// No double block: once a block at a slot was declared valid, no block of
/// that validator at that slot passes again, whatever its root and however
/// the store has moved on since.
pub proof fn law_no_double_block(
    store: Store,
    later: Store,
    pubkey: PublicKey,
    slot: Slot,
    first_root: Option<Hash256>,
    second_root: Option<Hash256>,
)
    requires
        store.wf(),
        store.check_block(pubkey, slot, first_root) == Ok::<Safe, NotSafe>(Safe::Valid),
        store.after_block(pubkey, slot, first_root).precedes(later),
    ensures
        later.check_block(pubkey, slot, second_root) is Err,
{
    let state = store.state_of(pubkey);
    lemma_position_of(store.validators, pubkey, 0);
    store.lemma_with_state(pubkey, with_block(store.mode, state, slot, first_root));
    assert(store.after_block(pubkey, slot, first_root).is_registered(pubkey));
}

/// No double vote: once an attestation with a target was declared valid,
/// no attestation of that validator with that target passes again,
/// whatever its source and root and however the store has moved on since.
pub proof fn law_no_double_vote(
    store: Store,
    later: Store,
    pubkey: PublicKey,
    target: Epoch,
    first_source: Epoch,
    first_root: Option<Hash256>,
    second_source: Epoch,
    second_root: Option<Hash256>,
)
    requires
        store.wf(),
        store.check_attestation(pubkey, first_source, target, first_root) == Ok::<Safe, NotSafe>(
            Safe::Valid,
        ),
        store.after_attestation(pubkey, first_source, target, first_root).precedes(later),
    ensures
        later.check_attestation(pubkey, second_source, target, second_root) is Err,
{
    let state = store.state_of(pubkey);
    lemma_position_of(store.validators, pubkey, 0);
    store.lemma_with_state(
        pubkey,
        with_attestation(store.mode, state, first_source, target, first_root),
    );
    assert(store.after_attestation(pubkey, first_source, target, first_root).is_registered(pubkey));
}

/// No surround: once an attestation was declared valid, no attestation of
/// that validator that passes later surrounds it or is surrounded by it.
pub proof fn law_no_surround(
    store: Store,
    later: Store,
    pubkey: PublicKey,
    first_source: Epoch,
    first_target: Epoch,
    first_root: Option<Hash256>,
    second_source: Epoch,
    second_target: Epoch,
    second_root: Option<Hash256>,
)
    requires
        store.wf(),
        store.check_attestation(pubkey, first_source, first_target, first_root) == Ok::<
            Safe,
            NotSafe,
        >(Safe::Valid),
        store.after_attestation(pubkey, first_source, first_target, first_root).precedes(later),
        later.check_attestation(pubkey, second_source, second_target, second_root) is Ok,
    ensures
        !(first_source.0 < second_source.0 && second_target.0 < first_target.0),
        !(second_source.0 < first_source.0 && first_target.0 < second_target.0),
        first_target.0 < second_target.0,
        first_source.0 <= second_source.0,
{
    let state = store.state_of(pubkey);
    lemma_position_of(store.validators, pubkey, 0);
    store.lemma_with_state(
        pubkey,
        with_attestation(store.mode, state, first_source, first_target, first_root),
    );
    assert(store.after_attestation(pubkey, first_source, first_target, first_root).is_registered(
        pubkey,
    ));
}

} // verus!
