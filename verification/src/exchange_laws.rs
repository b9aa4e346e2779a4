//! What holds of import and export: an import only raises bounds, importing
//! a document a second time changes nothing, and a document imported into
//! an empty store comes out again on export.

use crate::exchange::{
    highest_attestation, highest_slot, import_attestation, import_attestations, import_block,
    import_blocks, ImportError,
};
use crate::interchange::{
    CompleteRecord, Document, InterchangeFormat, MinimalInterchangeData, Records,
    SignedAttestation, SignedBlock,
};
use crate::lower_bound::{epoch_le, slot_le, LowerBound};
use crate::store::{lemma_position_of, lemma_position_of_unique, position_of, Store, ValidatorState};
use crate::types::{Hash256, PublicKey, Slot};
use vstd::prelude::*;

verus! {

/// `item` is one of the first `n` entries.
pub open spec fn among<T>(entries: Seq<T>, n: nat, item: T) -> bool {
    exists|i: int| 0 <= i < n && entries[i] == item
}

/// Every one of the first `n` blocks lies at or below the highest slot
/// among them.
pub proof fn lemma_highest_slot(blocks: Seq<SignedBlock>, n: nat, i: int)
    requires
        0 <= i < n <= blocks.len(),
    ensures
        slot_le(Some(blocks[i].slot), highest_slot(blocks, n)),
    decreases n,
{
    if i < n - 1 {
        lemma_highest_slot(blocks, (n - 1) as nat, i);
    }
}

/// Every one of the first `n` attestations has its target at or below the
/// target of the highest among them, which is one of them.
pub proof fn lemma_highest_attestation(attestations: Seq<SignedAttestation>, n: nat, i: int)
    requires
        0 <= i < n <= attestations.len(),
    ensures
        highest_attestation(attestations, n) matches Some(top) && attestations[i].target_epoch.0
            <= top.target_epoch.0,
    decreases n,
{
    if i < n - 1 {
        lemma_highest_attestation(attestations, (n - 1) as nat, i);
    }
}

/// Taking blocks in keeps what was on record, in place, and adds nothing
/// but blocks of the document; each block of the document is on record
/// afterwards.
pub proof fn lemma_import_blocks(
    history: Seq<SignedBlock>,
    bound: Option<Slot>,
    entries: Seq<SignedBlock>,
    n: nat,
)
    requires
        n <= entries.len(),
    ensures
        import_blocks(history, bound, entries, n) matches Some(after) ==> {
            &&& history.len() <= after.len()
            &&& forall|k: int| 0 <= k < history.len() ==> after[k] == history[k]
            &&& forall|k: int|
                history.len() <= k < after.len() ==> #[trigger] among(entries, n, after[k])
            &&& forall|i: int| 0 <= i < n ==> after.contains(#[trigger] entries[i])
        },
    decreases n,
{
    if n > 0 {
        lemma_import_blocks(history, bound, entries, (n - 1) as nat);
        if let Some(before) = import_blocks(history, bound, entries, (n - 1) as nat) {
            if let Some(after) = import_block(before, bound, entries[n - 1]) {
                let entry = entries[n - 1];
                assert forall|k: int| history.len() <= k < after.len() implies #[trigger] among(
                    entries,
                    n,
                    after[k],
                ) by {
                    if k < before.len() {
                        assert(among(entries, (n - 1) as nat, before[k]));
                        let i = choose|i: int| 0 <= i < n - 1 && entries[i] == before[k];
                        assert(entries[i] == after[k]);
                    } else {
                        assert(entries[n - 1] == after[k]);
                    }
                }
                assert forall|i: int| 0 <= i < n implies after.contains(#[trigger] entries[i]) by {
                    if i < n - 1 {
                        let k = choose|k: int| 0 <= k < before.len() && before[k] == entries[i];
                        assert(after[k] == entries[i]);
                    } else if before.contains(entry) {
                    } else {
                        assert(after[before.len() as int] == entry);
                    }
                }
            }
        }
    }
}

/// Taking attestations in keeps what was on record, in place, and adds
/// nothing but attestations of the document; each attestation of the
/// document is on record afterwards.
pub proof fn lemma_import_attestations(
    history: Seq<SignedAttestation>,
    bound: LowerBound,
    entries: Seq<SignedAttestation>,
    n: nat,
)
    requires
        n <= entries.len(),
    ensures
        import_attestations(history, bound, entries, n) matches Some(after) ==> {
            &&& history.len() <= after.len()
            &&& forall|k: int| 0 <= k < history.len() ==> after[k] == history[k]
            &&& forall|k: int|
                history.len() <= k < after.len() ==> #[trigger] among(entries, n, after[k])
            &&& forall|i: int| 0 <= i < n ==> after.contains(#[trigger] entries[i])
        },
    decreases n,
{
    if n > 0 {
        lemma_import_attestations(history, bound, entries, (n - 1) as nat);
        if let Some(before) = import_attestations(history, bound, entries, (n - 1) as nat) {
            if let Some(after) = import_attestation(before, bound, entries[n - 1]) {
                let entry = entries[n - 1];
                assert forall|k: int| history.len() <= k < after.len() implies #[trigger] among(
                    entries,
                    n,
                    after[k],
                ) by {
                    if k < before.len() {
                        assert(among(entries, (n - 1) as nat, before[k]));
                        let i = choose|i: int| 0 <= i < n - 1 && entries[i] == before[k];
                        assert(entries[i] == after[k]);
                    } else {
                        assert(entries[n - 1] == after[k]);
                    }
                }
                assert forall|i: int| 0 <= i < n implies after.contains(#[trigger] entries[i]) by {
                    if i < n - 1 {
                        let k = choose|k: int| 0 <= k < before.len() && before[k] == entries[i];
                        assert(after[k] == entries[i]);
                    } else if before.contains(entry) {
                    } else {
                        assert(after[before.len() as int] == entry);
                    }
                }
            }
        }
    }
}

/// Blocks that are all on record are taken in without a change.
pub proof fn lemma_import_known_blocks(
    history: Seq<SignedBlock>,
    bound: Option<Slot>,
    entries: Seq<SignedBlock>,
    n: nat,
)
    requires
        n <= entries.len(),
        forall|i: int| 0 <= i < n ==> history.contains(#[trigger] entries[i]),
    ensures
        import_blocks(history, bound, entries, n) == Some(history),
    decreases n,
{
    if n > 0 {
        lemma_import_known_blocks(history, bound, entries, (n - 1) as nat);
        assert(history.contains(entries[n - 1]));
    }
}

/// Attestations that are all on record are taken in without a change.
pub proof fn lemma_import_known_attestations(
    history: Seq<SignedAttestation>,
    bound: LowerBound,
    entries: Seq<SignedAttestation>,
    n: nat,
)
    requires
        n <= entries.len(),
        forall|i: int| 0 <= i < n ==> history.contains(#[trigger] entries[i]),
    ensures
        import_attestations(history, bound, entries, n) == Some(history),
    decreases n,
{
    if n > 0 {
        lemma_import_known_attestations(history, bound, entries, (n - 1) as nat);
        assert(history.contains(entries[n - 1]));
    }
}

/// No block occurs twice in the list.
pub open spec fn no_block_twice(blocks: Seq<SignedBlock>) -> bool {
    forall|i: int, j: int| 0 <= i < j < blocks.len() ==> blocks[i] != blocks[j]
}

/// No attestation occurs twice in the list.
pub open spec fn no_attestation_twice(attestations: Seq<SignedAttestation>) -> bool {
    forall|i: int, j: int| 0 <= i < j < attestations.len() ==> attestations[i] != attestations[j]
}

/// Blocks without a repeat that are taken into an empty history make up
/// the history, in their order.
pub proof fn lemma_import_blocks_into_empty(bound: Option<Slot>, entries: Seq<SignedBlock>, n: nat)
    requires
        n <= entries.len(),
        no_block_twice(entries),
    ensures
        import_blocks(Seq::empty(), bound, entries, n) matches Some(after) ==> after == entries.take(
            n as int,
        ),
    decreases n,
{
    if n > 0 {
        lemma_import_blocks_into_empty(bound, entries, (n - 1) as nat);
        if let Some(before) = import_blocks(Seq::empty(), bound, entries, (n - 1) as nat) {
            assert(!before.contains(entries[n - 1])) by {
                if before.contains(entries[n - 1]) {
                    let k = choose|k: int| 0 <= k < before.len() && before[k] == entries[n - 1];
                    assert(entries[k] == entries[n - 1]);
                }
            }
            if let Some(after) = import_block(before, bound, entries[n - 1]) {
                assert(after =~= entries.take(n as int));
            }
        } else {
        }
    } else {
        assert(entries.take(0) =~= Seq::<SignedBlock>::empty());
    }
}

/// Attestations without a repeat that are taken into an empty history make
/// up the history, in their order.
pub proof fn lemma_import_attestations_into_empty(
    bound: LowerBound,
    entries: Seq<SignedAttestation>,
    n: nat,
)
    requires
        n <= entries.len(),
        no_attestation_twice(entries),
    ensures
        import_attestations(Seq::empty(), bound, entries, n) matches Some(after) ==> after
            == entries.take(n as int),
    decreases n,
{
    if n > 0 {
        lemma_import_attestations_into_empty(bound, entries, (n - 1) as nat);
        if let Some(before) = import_attestations(Seq::empty(), bound, entries, (n - 1) as nat) {
            assert(!before.contains(entries[n - 1])) by {
                if before.contains(entries[n - 1]) {
                    let k = choose|k: int| 0 <= k < before.len() && before[k] == entries[n - 1];
                    assert(entries[k] == entries[n - 1]);
                }
            }
            if let Some(after) = import_attestation(before, bound, entries[n - 1]) {
                assert(after =~= entries.take(n as int));
            }
        } else {
        }
    } else {
        assert(entries.take(0) =~= Seq::<SignedAttestation>::empty());
    }
}

/// The store holds what a minimal record states: the validator is
/// registered with a consistent bound at or above the record's.
pub open spec fn holds_minimal(store: Store, record: MinimalInterchangeData) -> bool {
    &&& store.is_registered(record.pubkey)
    &&& record.bound().le(store.state_of(record.pubkey).lower_bound)
    &&& store.state_of(record.pubkey).lower_bound.is_consistent()
}

/// The store holds what a complete record states: the validator is
/// registered with a consistent bound at or above the one the record
/// implies, and a store in complete mode has each of the record's blocks
/// and attestations on record.
pub open spec fn holds_complete(store: Store, record: CompleteRecord) -> bool {
    let state = store.state_of(record.pubkey);
    &&& store.is_registered(record.pubkey)
    &&& record.bound().le(state.lower_bound)
    &&& state.lower_bound.is_consistent()
    &&& store.mode == InterchangeFormat::Complete ==> {
        &&& forall|i: int|
            0 <= i < record.signed_blocks.len() ==> state.signed_blocks.contains(
                #[trigger] record.signed_blocks[i],
            )
        &&& forall|i: int|
            0 <= i < record.signed_attestations.len() ==> state.signed_attestations.contains(
                #[trigger] record.signed_attestations[i],
            )
    }
}

/// What `self` has on record for a validator, `later` has too: the
/// validator stays registered, its bound does not fall, a consistent bound
/// stays consistent, and nothing leaves its history.
pub open spec fn keeps(earlier: Store, later: Store) -> bool {
    forall|pubkey: PublicKey| #[trigger]
        earlier.is_registered(pubkey) ==> {
            let before = earlier.state_of(pubkey);
            let after = later.state_of(pubkey);
            &&& later.is_registered(pubkey)
            &&& before.lower_bound.le(after.lower_bound)
            &&& before.lower_bound.is_consistent() ==> after.lower_bound.is_consistent()
            &&& forall|e: SignedBlock| #[trigger]
                before.signed_blocks.contains(e) ==> after.signed_blocks.contains(e)
            &&& forall|e: SignedAttestation| #[trigger]
                before.signed_attestations.contains(e) ==> after.signed_attestations.contains(e)
        }
}

/// What merging one minimal record does to a store.
pub proof fn lemma_import_minimal_record(store: Store, record: MinimalInterchangeData)
    requires
        store.wf(),
    ensures
        store.import_minimal_record(record) matches Some(next) ==> {
            &&& next.wf()
            &&& next.mode == store.mode
            &&& next.genesis_validators_root == store.genesis_validators_root
            &&& store.precedes(next)
            &&& keeps(store, next)
            &&& holds_minimal(next, record)
            &&& store.bounds_cover_history() ==> next.bounds_cover_history()
        },
{
    if let Some(next) = store.import_minimal_record(record) {
        let pubkey = record.pubkey;
        let registered = store.register(pubkey);
        store.lemma_register(pubkey);
        let state = registered.state_of(pubkey);
        let merged = state.lower_bound.join(record.bound());
        let new_state = ValidatorState {
            pubkey: state.pubkey,
            lower_bound: merged,
            signed_blocks: state.signed_blocks,
            signed_attestations: state.signed_attestations,
        };
        lemma_position_of(registered.validators, pubkey, 0);
        let p = position_of(registered.validators, pubkey, 0).unwrap();
        if store.bounds_cover_history() {
            assert(registered.validators[p].bound_covers_history());
            assert(new_state.bound_covers_history());
        }
        registered.lemma_with_state(pubkey, new_state);
        assert(store.precedes(next)) by {
            assert forall|other: PublicKey| #[trigger] store.is_registered(other) implies (
            next.is_registered(other) && store.state_of(other).lower_bound.le(
                next.state_of(other).lower_bound,
            )) by {
                assert(registered.is_registered(other));
            }
        }
        assert(keeps(store, next)) by {
            assert forall|other: PublicKey| #[trigger] store.is_registered(other) implies ({
                let before = store.state_of(other);
                let after = next.state_of(other);
                &&& next.is_registered(other)
                &&& before.lower_bound.le(after.lower_bound)
                &&& before.lower_bound.is_consistent() ==> after.lower_bound.is_consistent()
                &&& forall|e: SignedBlock| #[trigger]
                    before.signed_blocks.contains(e) ==> after.signed_blocks.contains(e)
                &&& forall|e: SignedAttestation| #[trigger]
                    before.signed_attestations.contains(e) ==> after.signed_attestations.contains(e)
            }) by {
                assert(registered.is_registered(other));
            }
        }
    }
}

/// What merging one complete record does to a store.
pub proof fn lemma_import_complete_record(store: Store, record: CompleteRecord)
    requires
        store.wf(),
    ensures
        store.import_complete_record(record) matches Some(next) ==> {
            &&& next.wf()
            &&& next.mode == store.mode
            &&& next.genesis_validators_root == store.genesis_validators_root
            &&& store.precedes(next)
            &&& keeps(store, next)
            &&& holds_complete(next, record)
            &&& store.bounds_cover_history() ==> next.bounds_cover_history()
        },
{
    if let Some(next) = store.import_complete_record(record) {
        let pubkey = record.pubkey;
        let registered = store.register(pubkey);
        store.lemma_register(pubkey);
        let state = registered.state_of(pubkey);
        let merged = state.lower_bound.join(record.bound());
        let complete = store.mode == InterchangeFormat::Complete;
        let blocks = if complete {
            import_blocks(
                state.signed_blocks,
                state.lower_bound.block_proposal_slot,
                record.signed_blocks,
                record.signed_blocks.len(),
            ).unwrap()
        } else {
            state.signed_blocks
        };
        let attestations = if complete {
            import_attestations(
                state.signed_attestations,
                state.lower_bound,
                record.signed_attestations,
                record.signed_attestations.len(),
            ).unwrap()
        } else {
            state.signed_attestations
        };
        let new_state = ValidatorState {
            pubkey: state.pubkey,
            lower_bound: merged,
            signed_blocks: blocks,
            signed_attestations: attestations,
        };
        lemma_position_of(registered.validators, pubkey, 0);
        let p = position_of(registered.validators, pubkey, 0).unwrap();
        lemma_import_blocks(
            state.signed_blocks,
            state.lower_bound.block_proposal_slot,
            record.signed_blocks,
            record.signed_blocks.len(),
        );
        lemma_import_attestations(
            state.signed_attestations,
            state.lower_bound,
            record.signed_attestations,
            record.signed_attestations.len(),
        );
        if !complete {
            assert(registered.validators[p].signed_blocks.len() == 0);
        }
        if store.bounds_cover_history() {
            assert(registered.validators[p].bound_covers_history());
            assert forall|k: int| 0 <= k < blocks.len() implies slot_le(
                Some((#[trigger] blocks[k]).slot),
                merged.block_proposal_slot,
            ) by {
                if k < state.signed_blocks.len() {
                    assert(blocks[k] == state.signed_blocks[k]);
                } else {
                    assert(among(record.signed_blocks, record.signed_blocks.len(), blocks[k]));
                    let i = choose|i: int|
                        0 <= i < record.signed_blocks.len() && record.signed_blocks[i] == blocks[k];
                    lemma_highest_slot(record.signed_blocks, record.signed_blocks.len(), i);
                }
            }
            assert forall|k: int| 0 <= k < attestations.len() implies epoch_le(
                Some((#[trigger] attestations[k]).target_epoch),
                merged.attestation_target_epoch,
            ) by {
                if k < state.signed_attestations.len() {
                    assert(attestations[k] == state.signed_attestations[k]);
                } else {
                    assert(among(
                        record.signed_attestations,
                        record.signed_attestations.len(),
                        attestations[k],
                    ));
                    let i = choose|i: int|
                        0 <= i < record.signed_attestations.len() && record.signed_attestations[i]
                            == attestations[k];
                    lemma_highest_attestation(
                        record.signed_attestations,
                        record.signed_attestations.len(),
                        i,
                    );
                }
            }
            assert(new_state.bound_covers_history());
        }
        registered.lemma_with_state(pubkey, new_state);
        assert(store.precedes(next)) by {
            assert forall|other: PublicKey| #[trigger] store.is_registered(other) implies (
            next.is_registered(other) && store.state_of(other).lower_bound.le(
                next.state_of(other).lower_bound,
            )) by {
                assert(registered.is_registered(other));
            }
        }
        assert(keeps(store, next)) by {
            assert forall|other: PublicKey| #[trigger] store.is_registered(other) implies ({
                let before = store.state_of(other);
                let after = next.state_of(other);
                &&& next.is_registered(other)
                &&& before.lower_bound.le(after.lower_bound)
                &&& before.lower_bound.is_consistent() ==> after.lower_bound.is_consistent()
                &&& forall|e: SignedBlock| #[trigger]
                    before.signed_blocks.contains(e) ==> after.signed_blocks.contains(e)
                &&& forall|e: SignedAttestation| #[trigger]
                    before.signed_attestations.contains(e) ==> after.signed_attestations.contains(e)
            }) by {
                assert(registered.is_registered(other));
                if other == pubkey {
                    let before = store.state_of(other);
                    assert(before == state);
                    assert forall|e: SignedBlock| #[trigger]
                        before.signed_blocks.contains(e) implies blocks.contains(e) by {
                        let k = choose|k: int|
                            0 <= k < before.signed_blocks.len() && before.signed_blocks[k] == e;
                        assert(blocks[k] == e);
                    }
                    assert forall|e: SignedAttestation| #[trigger]
                        before.signed_attestations.contains(e) implies attestations.contains(e) by {
                        let k = choose|k: int|
                            0 <= k < before.signed_attestations.len()
                                && before.signed_attestations[k] == e;
                        assert(attestations[k] == e);
                    }
                }
            }
        }
    }
}

/// A store that keeps what an earlier one had holds every record that the
/// earlier one held.
pub proof fn lemma_keeps_what_is_held(
    earlier: Store,
    later: Store,
    minimal: MinimalInterchangeData,
    complete: CompleteRecord,
)
    requires
        keeps(earlier, later),
        earlier.mode == later.mode,
    ensures
        holds_minimal(earlier, minimal) ==> holds_minimal(later, minimal),
        holds_complete(earlier, complete) ==> holds_complete(later, complete),
{
    if holds_minimal(earlier, minimal) {
        assert(earlier.is_registered(minimal.pubkey));
    }
    if holds_complete(earlier, complete) {
        assert(earlier.is_registered(complete.pubkey));
    }
}

/// Merging a minimal record that the store holds changes nothing.
pub proof fn lemma_import_held_minimal_record(store: Store, record: MinimalInterchangeData)
    requires
        store.wf(),
        holds_minimal(store, record),
    ensures
        store.import_minimal_record(record) == Some(store),
{
    let state = store.state_of(record.pubkey);
    state.lower_bound.lemma_join_is_semilattice(record.bound(), record.bound());
    record.bound().lemma_join_is_semilattice(state.lower_bound, state.lower_bound);
    lemma_position_of(store.validators, record.pubkey, 0);
    let next = store.import_minimal_record(record).unwrap();
    assert(next.validators =~= store.validators);
}

/// Merging a complete record that the store holds changes nothing.
pub proof fn lemma_import_held_complete_record(store: Store, record: CompleteRecord)
    requires
        store.wf(),
        holds_complete(store, record),
    ensures
        store.import_complete_record(record) == Some(store),
{
    let state = store.state_of(record.pubkey);
    state.lower_bound.lemma_join_is_semilattice(record.bound(), record.bound());
    record.bound().lemma_join_is_semilattice(state.lower_bound, state.lower_bound);
    lemma_position_of(store.validators, record.pubkey, 0);
    if store.mode == InterchangeFormat::Complete {
        lemma_import_known_blocks(
            state.signed_blocks,
            state.lower_bound.block_proposal_slot,
            record.signed_blocks,
            record.signed_blocks.len(),
        );
        lemma_import_known_attestations(
            state.signed_attestations,
            state.lower_bound,
            record.signed_attestations,
            record.signed_attestations.len(),
        );
    }
    let next = store.import_complete_record(record).unwrap();
    assert(next.validators =~= store.validators);
}

/// What merging the first `n` minimal records does to a store.
pub proof fn lemma_import_minimal(store: Store, records: Seq<MinimalInterchangeData>, n: nat)
    requires
        store.wf(),
        n <= records.len(),
    ensures
        store.import_minimal(records, n) matches Ok(after) ==> {
            &&& after.wf()
            &&& after.mode == store.mode
            &&& after.genesis_validators_root == store.genesis_validators_root
            &&& store.precedes(after)
            &&& keeps(store, after)
            &&& forall|k: int| 0 <= k < n ==> holds_minimal(after, #[trigger] records[k])
            &&& store.bounds_cover_history() ==> after.bounds_cover_history()
        },
    decreases n,
{
    if n > 0 {
        lemma_import_minimal(store, records, (n - 1) as nat);
        if let Ok(before) = store.import_minimal(records, (n - 1) as nat) {
            lemma_import_minimal_record(before, records[n - 1]);
            if let Some(after) = before.import_minimal_record(records[n - 1]) {
                crate::laws::law_precedes_is_preorder(store, before, after);
                lemma_keeps_is_transitive(store, before, after);
                assert forall|k: int| 0 <= k < n implies holds_minimal(
                    after,
                    #[trigger] records[k],
                ) by {
                    if k < n - 1 {
                        lemma_keeps_what_is_held(
                            before,
                            after,
                            records[k],
                            CompleteRecord {
                                pubkey: records[k].pubkey,
                                signed_blocks: Seq::empty(),
                                signed_attestations: Seq::empty(),
                            },
                        );
                    }
                }
            }
        }
    } else {
        crate::laws::law_precedes_is_preorder(store, store, store);
        lemma_keeps_is_reflexive(store);
    }
}

/// What merging the first `n` complete records does to a store.
pub proof fn lemma_import_complete(store: Store, records: Seq<CompleteRecord>, n: nat)
    requires
        store.wf(),
        n <= records.len(),
    ensures
        store.import_complete(records, n) matches Ok(after) ==> {
            &&& after.wf()
            &&& after.mode == store.mode
            &&& after.genesis_validators_root == store.genesis_validators_root
            &&& store.precedes(after)
            &&& keeps(store, after)
            &&& forall|k: int| 0 <= k < n ==> holds_complete(after, #[trigger] records[k])
            &&& store.bounds_cover_history() ==> after.bounds_cover_history()
        },
    decreases n,
{
    if n > 0 {
        lemma_import_complete(store, records, (n - 1) as nat);
        if let Ok(before) = store.import_complete(records, (n - 1) as nat) {
            lemma_import_complete_record(before, records[n - 1]);
            if let Some(after) = before.import_complete_record(records[n - 1]) {
                crate::laws::law_precedes_is_preorder(store, before, after);
                lemma_keeps_is_transitive(store, before, after);
                assert forall|k: int| 0 <= k < n implies holds_complete(
                    after,
                    #[trigger] records[k],
                ) by {
                    if k < n - 1 {
                        lemma_keeps_what_is_held(
                            before,
                            after,
                            MinimalInterchangeData {
                                pubkey: records[k].pubkey,
                                last_signed_block_slot: None,
                                last_signed_attestation_source_epoch: None,
                                last_signed_attestation_target_epoch: None,
                            },
                            records[k],
                        );
                    }
                }
            }
        }
    } else {
        crate::laws::law_precedes_is_preorder(store, store, store);
        lemma_keeps_is_reflexive(store);
    }
}

/// Every store keeps what it has.
pub proof fn lemma_keeps_is_reflexive(store: Store)
    ensures
        keeps(store, store),
{
}

/// What is kept from one store to a second and from there to a third is
/// kept from the first to the third.
pub proof fn lemma_keeps_is_transitive(a: Store, b: Store, c: Store)
    requires
        keeps(a, b),
        keeps(b, c),
    ensures
        keeps(a, c),
{
    assert forall|pubkey: PublicKey| #[trigger] a.is_registered(pubkey) implies ({
        let before = a.state_of(pubkey);
        let after = c.state_of(pubkey);
        &&& c.is_registered(pubkey)
        &&& before.lower_bound.le(after.lower_bound)
        &&& before.lower_bound.is_consistent() ==> after.lower_bound.is_consistent()
        &&& forall|e: SignedBlock| #[trigger]
            before.signed_blocks.contains(e) ==> after.signed_blocks.contains(e)
        &&& forall|e: SignedAttestation| #[trigger]
            before.signed_attestations.contains(e) ==> after.signed_attestations.contains(e)
    }) by {
        assert(b.is_registered(pubkey));
        let mid = b.state_of(pubkey);
        let before = a.state_of(pubkey);
        let after = c.state_of(pubkey);
        assert forall|e: SignedBlock| #[trigger]
            before.signed_blocks.contains(e) implies after.signed_blocks.contains(e) by {
            assert(mid.signed_blocks.contains(e));
        }
        assert forall|e: SignedAttestation| #[trigger]
            before.signed_attestations.contains(e) implies after.signed_attestations.contains(
            e,
        ) by {
            assert(mid.signed_attestations.contains(e));
        }
    }
}

/// Merging minimal records that the store holds changes nothing.
pub proof fn lemma_import_held_minimal(store: Store, records: Seq<MinimalInterchangeData>, n: nat)
    requires
        store.wf(),
        n <= records.len(),
        forall|k: int| 0 <= k < n ==> holds_minimal(store, #[trigger] records[k]),
    ensures
        store.import_minimal(records, n) == Ok::<Store, ImportError>(store),
    decreases n,
{
    if n > 0 {
        lemma_import_held_minimal(store, records, (n - 1) as nat);
        lemma_import_held_minimal_record(store, records[n - 1]);
    }
}

/// Merging complete records that the store holds changes nothing.
pub proof fn lemma_import_held_complete(store: Store, records: Seq<CompleteRecord>, n: nat)
    requires
        store.wf(),
        n <= records.len(),
        forall|k: int| 0 <= k < n ==> holds_complete(store, #[trigger] records[k]),
    ensures
        store.import_complete(records, n) == Ok::<Store, ImportError>(store),
    decreases n,
{
    if n > 0 {
        lemma_import_held_complete(store, records, (n - 1) as nat);
        lemma_import_held_complete_record(store, records[n - 1]);
    }
}

/// An import only raises bounds: every validator that was registered stays
/// registered, and no field of its bound is lower or has gone absent. The
/// store stays well formed, and bounds that covered the history still do.
pub proof fn law_import_only_raises_bounds(store: Store, document: Document, root: Hash256)
    requires
        store.wf(),
    ensures
        store.import(document, root) matches Ok(after) ==> {
            &&& after.wf()
            &&& store.precedes(after)
            &&& after.genesis_validators_root == Some(root)
            &&& after.mode == store.mode
            &&& store.bounds_cover_history() ==> after.bounds_cover_history()
        },
{
    let start = store.bound_to(root);
    crate::laws::law_precedes_is_preorder(store, store, store);
    assert(store.precedes(start));
    match document.data {
        Records::Minimal(m) => {
            lemma_import_minimal(start, m, m.len());
            if let Ok(after) = start.import_minimal(m, m.len()) {
                crate::laws::law_precedes_is_preorder(store, start, after);
            }
        },
        Records::Complete(c) => {
            lemma_import_complete(start, c, c.len());
            if let Ok(after) = start.import_complete(c, c.len()) {
                crate::laws::law_precedes_is_preorder(store, start, after);
            }
        },
    }
}

/// Idempotent import: a document that was imported is imported a second
/// time without an error and without a change to the store.
pub proof fn law_import_is_idempotent(store: Store, document: Document, root: Hash256)
    requires
        store.wf(),
    ensures
        store.import(document, root) matches Ok(once) ==> once.import(document, root) == Ok::<
            Store,
            ImportError,
        >(once),
{
    if let Ok(once) = store.import(document, root) {
        let start = store.bound_to(root);
        match document.data {
            Records::Minimal(m) => {
                lemma_import_minimal(start, m, m.len());
                assert(once.bound_to(root) == once);
                lemma_import_held_minimal(once, m, m.len());
            },
            Records::Complete(c) => {
                lemma_import_complete(start, c, c.len());
                assert(once.bound_to(root) == once);
                lemma_import_held_complete(once, c, c.len());
            },
        }
    }
}

/// The state of a validator of which nothing is known but a minimal record.
pub open spec fn state_from_minimal(record: MinimalInterchangeData) -> ValidatorState {
    ValidatorState {
        pubkey: record.pubkey,
        lower_bound: record.bound(),
        signed_blocks: Seq::empty(),
        signed_attestations: Seq::empty(),
    }
}

/// The state of a validator of which nothing is known but a complete
/// record, in a store that keeps histories.
pub open spec fn state_from_complete(record: CompleteRecord) -> ValidatorState {
    ValidatorState {
        pubkey: record.pubkey,
        lower_bound: record.bound(),
        signed_blocks: record.signed_blocks,
        signed_attestations: record.signed_attestations,
    }
}

/// No two minimal records are for the same validator.
pub open spec fn minimal_keys_differ(records: Seq<MinimalInterchangeData>) -> bool {
    forall|i: int, j: int| 0 <= i < j < records.len() ==> records[i].pubkey != records[j].pubkey
}

/// No two complete records are for the same validator.
pub open spec fn complete_keys_differ(records: Seq<CompleteRecord>) -> bool {
    forall|i: int, j: int| 0 <= i < j < records.len() ==> records[i].pubkey != records[j].pubkey
}

/// A store in the given mode keeps every entry of the records: the store
/// keeps histories and no record lists a block or an attestation twice, or
/// the store keeps no histories and no record lists anything.
pub open spec fn complete_records_kept_whole(
    records: Seq<CompleteRecord>,
    mode: InterchangeFormat,
) -> bool {
    forall|i: int|
        0 <= i < records.len() ==> if mode == InterchangeFormat::Complete {
            no_block_twice((#[trigger] records[i]).signed_blocks) && no_attestation_twice(
                records[i].signed_attestations,
            )
        } else {
            records[i].signed_blocks.len() == 0 && records[i].signed_attestations.len() == 0
        }
}

impl Records {
    /// The format that the records have.
    pub open spec fn format(self) -> InterchangeFormat {
        match self {
            Records::Minimal(_) => InterchangeFormat::Minimal,
            Records::Complete(_) => InterchangeFormat::Complete,
        }
    }

    /// No two records are for the same validator.
    pub open spec fn has_distinct_keys(self) -> bool {
        match self {
            Records::Minimal(m) => minimal_keys_differ(m),
            Records::Complete(c) => complete_keys_differ(c),
        }
    }

    /// A store in the given mode keeps every entry of the records: they are
    /// minimal records; or the store keeps histories and no record lists a
    /// block or an attestation twice; or the store keeps no histories and
    /// no record lists anything.
    pub open spec fn is_kept_whole_in(self, mode: InterchangeFormat) -> bool {
        match self {
            Records::Minimal(_) => true,
            Records::Complete(c) => complete_records_kept_whole(c, mode),
        }
    }
}

/// Minimal records for different validators, merged into a store without
/// validators, leave one validator for each record, in order, with the
/// record's bound.
pub proof fn lemma_import_minimal_into_empty(
    start: Store,
    records: Seq<MinimalInterchangeData>,
    n: nat,
)
    requires
        start.wf(),
        start.validators.len() == 0,
        n <= records.len(),
        minimal_keys_differ(records),
    ensures
        start.import_minimal(records, n) matches Ok(after) ==> after.validators == Seq::new(
            n,
            |i: int| state_from_minimal(records[i]),
        ),
    decreases n,
{
    if n > 0 {
        lemma_import_minimal_into_empty(start, records, (n - 1) as nat);
        lemma_import_minimal(start, records, (n - 1) as nat);
        if let Ok(before) = start.import_minimal(records, (n - 1) as nat) {
            let record = records[n - 1];
            if let Some(after) = before.import_minimal_record(record) {
                lemma_position_of(before.validators, record.pubkey, 0);
                before.lemma_register(record.pubkey);
                let registered = before.register(record.pubkey);
                lemma_position_of_unique(registered.validators, n - 1);
                record.bound().lemma_join_is_semilattice(record.bound(), record.bound());
                assert(after.validators =~= Seq::new(n, |i: int| state_from_minimal(records[i])));
            }
        }
    } else {
        assert(start.validators =~= Seq::new(0, |i: int| state_from_minimal(records[i])));
    }
}

/// Complete records for different validators, merged into a store without
/// validators that keeps every entry, leave one validator for each record,
/// in order, with the bound that the record implies and, where the store
/// keeps histories, the record's blocks and attestations as its history.
pub proof fn lemma_import_complete_into_empty(start: Store, records: Seq<CompleteRecord>, n: nat)
    requires
        start.wf(),
        start.validators.len() == 0,
        n <= records.len(),
        complete_keys_differ(records),
        complete_records_kept_whole(records, start.mode),
    ensures
        start.import_complete(records, n) matches Ok(after) ==> after.validators == Seq::new(
            n,
            |i: int| state_from_complete(records[i]),
        ),
    decreases n,
{
    if n > 0 {
        lemma_import_complete_into_empty(start, records, (n - 1) as nat);
        lemma_import_complete(start, records, (n - 1) as nat);
        if let Ok(before) = start.import_complete(records, (n - 1) as nat) {
            let record = records[n - 1];
            if let Some(after) = before.import_complete_record(record) {
                lemma_position_of(before.validators, record.pubkey, 0);
                assert(before.validators.len() == n - 1);
                if before.is_registered(record.pubkey) {
                    let p = position_of(before.validators, record.pubkey, 0).unwrap();
                    assert(0 <= p < n - 1);
                    assert(before.validators[p] == state_from_complete(records[p]));
                    assert(records[p].pubkey == record.pubkey);
                    assert(0 <= p < n - 1 < records.len());
                    assert(records[p].pubkey != records[n - 1].pubkey);
                }
                before.lemma_register(record.pubkey);
                let registered = before.register(record.pubkey);
                assert(registered.validators.len() == n);
                lemma_position_of_unique(registered.validators, n - 1);
                record.bound().lemma_join_is_semilattice(record.bound(), record.bound());
                let blocks = record.signed_blocks;
                let attestations = record.signed_attestations;
                assert(records[n - 1] == record);
                if start.mode == InterchangeFormat::Complete {
                    lemma_import_blocks_into_empty(None, blocks, blocks.len());
                    lemma_import_attestations_into_empty(
                        LowerBound::empty(),
                        attestations,
                        attestations.len(),
                    );
                }
                assert(blocks.take(blocks.len() as int) =~= blocks);
                assert(attestations.take(attestations.len() as int) =~= attestations);
                assert(after.validators[n - 1].signed_blocks =~= blocks);
                assert(after.validators[n - 1].signed_attestations =~= attestations);
                assert(after.validators =~= Seq::new(n, |i: int| state_from_complete(records[i])));
            }
        }
    } else {
        assert(start.validators =~= Seq::new(0, |i: int| state_from_complete(records[i])));
    }
}

/// Import, then export: a document whose records are for different
/// validators, whose stated format is the one its records have, and of
/// which the store keeps every entry, imported into an empty store, comes
/// out again on export in that format: the exported document is
/// equivalent to the imported one, and even equal to it.
pub proof fn law_import_then_export_round_trip(
    mode: InterchangeFormat,
    document: Document,
    root: Hash256,
)
    requires
        document.metadata.interchange_format == document.data.format(),
        document.data.has_distinct_keys(),
        document.data.is_kept_whole_in(mode),
    ensures
        Store::empty(mode).import(document, root) matches Ok(store) ==> {
            &&& store.export(document.metadata.interchange_format) == document
            &&& document.equiv(store.export(document.metadata.interchange_format))
        },
{
    let empty = Store::empty(mode);
    if let Ok(store) = empty.import(document, root) {
        let start = empty.bound_to(root);
        let exported = store.export(document.metadata.interchange_format);
        match document.data {
            Records::Minimal(m) => {
                lemma_import_minimal(start, m, m.len());
                lemma_import_minimal_into_empty(start, m, m.len());
                assert(exported.data->Minimal_0 =~= m);
            },
            Records::Complete(c) => {
                lemma_import_complete(start, c, c.len());
                lemma_import_complete_into_empty(start, c, c.len());
                assert(exported.data->Complete_0 =~= c);
            },
        }
        assert(exported.metadata == document.metadata);
        assert(exported == document);
    }
}

} // verus!
