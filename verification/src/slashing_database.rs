//! The slashing store: the registered validators, their lower bounds and, in
//! complete mode, their signing histories, with the check-and-insert
//! operations that decide whether a candidate may be signed.

use crate::exchange::{
    complete_record, highest_attestation, highest_slot, import_attestation, import_attestations,
    import_block, import_blocks, minimal_record, ImportError,
};
use crate::interchange::{
    views, CompleteInterchangeData, Interchange, InterchangeData, InterchangeFormat,
    InterchangeMetadata, MinimalInterchangeData, SignedAttestation, SignedBlock,
    SUPPORTED_INTERCHANGE_FORMAT_VERSION,
};
use crate::lower_bound::LowerBound;
use crate::signing::{InvalidAttestation, InvalidBlock, NotSafe, Safe};
use crate::store::{
    attestation_verdict, block_verdict, first_around, first_block_at, first_with_target,
    first_within, lemma_position_of, position_of, with_attestation, with_block, Store,
    ValidatorState,
};
use crate::types::{Epoch, Hash256, PublicKey, Slot};
use vstd::prelude::*;

verus! {

/// Everything the store holds for one validator.
#[derive(Clone, Debug)]
pub struct ValidatorRecord {
    pub pubkey: PublicKey,
    pub lower_bound: LowerBound,
    pub signed_blocks: Vec<SignedBlock>,
    pub signed_attestations: Vec<SignedAttestation>,
}

impl View for ValidatorRecord {
    type V = ValidatorState;

    open spec fn view(&self) -> ValidatorState {
        ValidatorState {
            pubkey: self.pubkey,
            lower_bound: self.lower_bound,
            signed_blocks: self.signed_blocks@,
            signed_attestations: self.signed_attestations@,
        }
    }
}

fn find_block_at(history: &Vec<SignedBlock>, slot: Slot) -> (found: Option<usize>)
    ensures
        found is Some == first_block_at(history@, slot, 0) is Some,
        found matches Some(p) ==> p < history.len() && Some(p as int) == first_block_at(
            history@,
            slot,
            0,
        ),
{
    let mut i: usize = 0;
    while i < history.len()
        invariant
            i <= history.len(),
            first_block_at(history@, slot, 0) == first_block_at(history@, slot, i as int),
        decreases history.len() - i,
    {
        if history[i].slot.0 == slot.0 {
            return Some(i);
        }
        i = i + 1;
    }
    None
}

fn find_around(history: &Vec<SignedAttestation>, source: Epoch, target: Epoch) -> (found: Option<
    usize,
>)
    ensures
        found is Some == first_around(history@, source, target, 0) is Some,
        found matches Some(p) ==> p < history.len() && Some(p as int) == first_around(
            history@,
            source,
            target,
            0,
        ),
{
    let mut i: usize = 0;
    while i < history.len()
        invariant
            i <= history.len(),
            first_around(history@, source, target, 0) == first_around(
                history@,
                source,
                target,
                i as int,
            ),
        decreases history.len() - i,
    {
        if history[i].source_epoch.0 < source.0 && target.0 < history[i].target_epoch.0 {
            return Some(i);
        }
        i = i + 1;
    }
    None
}

fn find_within(history: &Vec<SignedAttestation>, source: Epoch, target: Epoch) -> (found: Option<
    usize,
>)
    ensures
        found is Some == first_within(history@, source, target, 0) is Some,
        found matches Some(p) ==> p < history.len() && Some(p as int) == first_within(
            history@,
            source,
            target,
            0,
        ),
{
    let mut i: usize = 0;
    while i < history.len()
        invariant
            i <= history.len(),
            first_within(history@, source, target, 0) == first_within(
                history@,
                source,
                target,
                i as int,
            ),
        decreases history.len() - i,
    {
        if source.0 < history[i].source_epoch.0 && history[i].target_epoch.0 < target.0 {
            return Some(i);
        }
        i = i + 1;
    }
    None
}

fn find_with_target(history: &Vec<SignedAttestation>, target: Epoch) -> (found: Option<usize>)
    ensures
        found is Some == first_with_target(history@, target, 0) is Some,
        found matches Some(p) ==> p < history.len() && Some(p as int) == first_with_target(
            history@,
            target,
            0,
        ),
{
    let mut i: usize = 0;
    while i < history.len()
        invariant
            i <= history.len(),
            first_with_target(history@, target, 0) == first_with_target(history@, target, i as int),
        decreases history.len() - i,
    {
        if history[i].target_epoch.0 == target.0 {
            return Some(i);
        }
        i = i + 1;
    }
    None
}

/// Decides a block proposal against one validator's record.
pub fn check_block(
    mode: InterchangeFormat,
    record: &ValidatorRecord,
    slot: Slot,
    signing_root: Option<Hash256>,
) -> (verdict: Result<Safe, NotSafe>)
    ensures
        verdict == block_verdict(mode, record@, slot, signing_root),
{
    if !record.lower_bound.consistent() {
        return Err(NotSafe::ConsistencyError);
    }
    if let Some(bound) = record.lower_bound.block_proposal_slot {
        if slot.0 <= bound.0 {
            return Err(
                NotSafe::InvalidBlock(InvalidBlock::SlotViolatesLowerBound { proposed: slot, bound }),
            );
        }
    }
    let prior = find_block_at(&record.signed_blocks, slot);
    match mode {
        InterchangeFormat::Complete => {
            if let Some(p) = prior {
                let existing_root = record.signed_blocks[p].signing_root;
                if existing_root.is_some() && existing_root == signing_root {
                    return Ok(Safe::SameData);
                }
                return Err(
                    NotSafe::InvalidBlock(
                        InvalidBlock::DoubleBlockProposal {
                            existing_root,
                            proposed_root: signing_root,
                        },
                    ),
                );
            }
        },
        InterchangeFormat::Minimal => {},
    }
    Ok(Safe::Valid)
}

/// Decides an attestation against one validator's record.
pub fn check_attestation(
    mode: InterchangeFormat,
    record: &ValidatorRecord,
    source: Epoch,
    target: Epoch,
    signing_root: Option<Hash256>,
) -> (verdict: Result<Safe, NotSafe>)
    ensures
        verdict == attestation_verdict(mode, record@, source, target, signing_root),
{
    if !record.lower_bound.consistent() {
        return Err(NotSafe::ConsistencyError);
    }
    if source.0 > target.0 {
        return Err(NotSafe::InvalidAttestation(InvalidAttestation::SourceExceedsTarget));
    }
    if let Some(bound) = record.lower_bound.attestation_target_epoch {
        if target.0 <= bound.0 {
            return Err(
                NotSafe::InvalidAttestation(
                    InvalidAttestation::TargetViolatesLowerBound { proposed: target, bound },
                ),
            );
        }
    }
    if let Some(bound) = record.lower_bound.attestation_source_epoch {
        if source.0 < bound.0 {
            return Err(NotSafe::InvalidAttestation(InvalidAttestation::SourceViolatesLowerBound));
        }
    }
    match mode {
        InterchangeFormat::Complete => {
            let history = &record.signed_attestations;
            if let Some(p) = find_around(history, source, target) {
                return Err(
                    NotSafe::InvalidAttestation(
                        InvalidAttestation::NewSurroundsPrev {
                            prev_source: history[p].source_epoch,
                            prev_target: history[p].target_epoch,
                        },
                    ),
                );
            }
            if let Some(p) = find_within(history, source, target) {
                return Err(
                    NotSafe::InvalidAttestation(
                        InvalidAttestation::PrevSurroundsNew {
                            prev_source: history[p].source_epoch,
                            prev_target: history[p].target_epoch,
                        },
                    ),
                );
            }
            if let Some(p) = find_with_target(history, target) {
                let existing_root = history[p].signing_root;
                if existing_root.is_some() && existing_root == signing_root {
                    return Ok(Safe::SameData);
                }
                return Err(
                    NotSafe::InvalidAttestation(
                        InvalidAttestation::DoubleVote { existing_root, proposed_root: signing_root },
                    ),
                );
            }
        },
        InterchangeFormat::Minimal => {},
    }
    Ok(Safe::Valid)
}

fn has_block(history: &Vec<SignedBlock>, entry: &SignedBlock) -> (found: bool)
    ensures
        found == history@.contains(*entry),
{
    let mut i: usize = 0;
    while i < history.len()
        invariant
            i <= history.len(),
            forall|j: int| 0 <= j < i ==> history@[j] != *entry,
        decreases history.len() - i,
    {
        if history[i] == *entry {
            return true;
        }
        i = i + 1;
    }
    false
}

fn has_attestation(history: &Vec<SignedAttestation>, entry: &SignedAttestation) -> (found: bool)
    ensures
        found == history@.contains(*entry),
{
    let mut i: usize = 0;
    while i < history.len()
        invariant
            i <= history.len(),
            forall|j: int| 0 <= j < i ==> history@[j] != *entry,
        decreases history.len() - i,
    {
        if history[i] == *entry {
            return true;
        }
        i = i + 1;
    }
    false
}

/// Once a block cannot be taken in, no longer prefix of the list can.
proof fn lemma_import_blocks_stays_failed(
    history: Seq<SignedBlock>,
    bound: Option<Slot>,
    entries: Seq<SignedBlock>,
    k: nat,
    n: nat,
)
    requires
        k <= n,
        import_blocks(history, bound, entries, k) is None,
    ensures
        import_blocks(history, bound, entries, n) is None,
    decreases n,
{
    if k < n {
        lemma_import_blocks_stays_failed(history, bound, entries, k, (n - 1) as nat);
    }
}

/// Once an attestation cannot be taken in, no longer prefix of the list can.
proof fn lemma_import_attestations_stays_failed(
    history: Seq<SignedAttestation>,
    bound: LowerBound,
    entries: Seq<SignedAttestation>,
    k: nat,
    n: nat,
)
    requires
        k <= n,
        import_attestations(history, bound, entries, k) is None,
    ensures
        import_attestations(history, bound, entries, n) is None,
    decreases n,
{
    if k < n {
        lemma_import_attestations_stays_failed(history, bound, entries, k, (n - 1) as nat);
    }
}

/// Takes the blocks of a document into a history. On failure the history
/// is left in an unspecified state.
fn take_in_blocks(history: &mut Vec<SignedBlock>, bound: Option<Slot>, entries: &Vec<SignedBlock>) -> (ok:
    bool)
    ensures
        ok == import_blocks(old(history)@, bound, entries@, entries@.len()) is Some,
        ok ==> Some(final(history)@) == import_blocks(
            old(history)@,
            bound,
            entries@,
            entries@.len(),
        ),
{
    let mut i: usize = 0;
    while i < entries.len()
        invariant
            i <= entries.len(),
            Some(history@) == import_blocks(old(history)@, bound, entries@, i as nat),
        decreases entries.len() - i,
    {
        let entry = entries[i];
        proof {
            assert(import_blocks(old(history)@, bound, entries@, (i + 1) as nat) == import_block(
                history@,
                bound,
                entry,
            ));
        }
        if !has_block(history, &entry) {
            let below = match bound {
                Some(b) => entry.slot.0 <= b.0,
                None => false,
            };
            if below || find_block_at(history, entry.slot).is_some() {
                proof {
                    lemma_import_blocks_stays_failed(
                        old(history)@,
                        bound,
                        entries@,
                        (i + 1) as nat,
                        entries@.len(),
                    );
                }
                return false;
            }
            history.push(entry);
        }
        i = i + 1;
    }
    true
}

/// Takes the attestations of a document into a history. On failure the
/// history is left in an unspecified state.
fn take_in_attestations(
    history: &mut Vec<SignedAttestation>,
    bound: LowerBound,
    entries: &Vec<SignedAttestation>,
) -> (ok: bool)
    ensures
        ok == import_attestations(old(history)@, bound, entries@, entries@.len()) is Some,
        ok ==> Some(final(history)@) == import_attestations(
            old(history)@,
            bound,
            entries@,
            entries@.len(),
        ),
{
    let mut i: usize = 0;
    while i < entries.len()
        invariant
            i <= entries.len(),
            Some(history@) == import_attestations(old(history)@, bound, entries@, i as nat),
        decreases entries.len() - i,
    {
        let entry = entries[i];
        let source = entry.source_epoch;
        let target = entry.target_epoch;
        proof {
            assert(import_attestations(old(history)@, bound, entries@, (i + 1) as nat)
                == import_attestation(history@, bound, entry));
        }
        if !has_attestation(history, &entry) {
            let target_below = match bound.attestation_target_epoch {
                Some(b) => target.0 <= b.0,
                None => false,
            };
            let source_below = match bound.attestation_source_epoch {
                Some(b) => source.0 < b.0,
                None => false,
            };
            if source.0 > target.0 || target_below || source_below || find_around(
                history,
                source,
                target,
            ).is_some() || find_within(history, source, target).is_some() || find_with_target(
                history,
                target,
            ).is_some() {
                proof {
                    lemma_import_attestations_stays_failed(
                        old(history)@,
                        bound,
                        entries@,
                        (i + 1) as nat,
                        entries@.len(),
                    );
                }
                return false;
            }
            history.push(entry);
        }
        i = i + 1;
    }
    true
}

/// The lower bound that a complete record implies.
pub fn implied_bound(record: &CompleteInterchangeData) -> (bound: LowerBound)
    ensures
        bound == record@.bound(),
{
    let mut slot: Option<Slot> = None;
    let mut i: usize = 0;
    while i < record.signed_blocks.len()
        invariant
            i <= record.signed_blocks.len(),
            slot == highest_slot(record.signed_blocks@, i as nat),
        decreases record.signed_blocks.len() - i,
    {
        let next = record.signed_blocks[i].slot;
        slot = match slot {
            Some(s) => if s.0 >= next.0 {
                Some(s)
            } else {
                Some(next)
            },
            None => Some(next),
        };
        i = i + 1;
    }
    let mut top: Option<SignedAttestation> = None;
    let mut k: usize = 0;
    while k < record.signed_attestations.len()
        invariant
            k <= record.signed_attestations.len(),
            top == highest_attestation(record.signed_attestations@, k as nat),
        decreases record.signed_attestations.len() - k,
    {
        let next = record.signed_attestations[k];
        top = match top {
            Some(a) => if a.target_epoch.0 >= next.target_epoch.0 {
                Some(a)
            } else {
                Some(next)
            },
            None => Some(next),
        };
        k = k + 1;
    }
    LowerBound {
        block_proposal_slot: slot,
        attestation_source_epoch: match top {
            Some(a) => Some(a.source_epoch),
            None => None,
        },
        attestation_target_epoch: match top {
            Some(a) => Some(a.target_epoch),
            None => None,
        },
    }
}

fn copy_blocks(blocks: &Vec<SignedBlock>) -> (copy: Vec<SignedBlock>)
    ensures
        copy@ == blocks@,
{
    let mut copy: Vec<SignedBlock> = Vec::new();
    let mut i: usize = 0;
    while i < blocks.len()
        invariant
            i <= blocks.len(),
            copy@ == blocks@.take(i as int),
        decreases blocks.len() - i,
    {
        copy.push(blocks[i]);
        assert(copy@ =~= blocks@.take(i + 1));
        i = i + 1;
    }
    assert(blocks@.take(blocks.len() as int) =~= blocks@);
    copy
}

fn copy_attestations(attestations: &Vec<SignedAttestation>) -> (copy: Vec<SignedAttestation>)
    ensures
        copy@ == attestations@,
{
    let mut copy: Vec<SignedAttestation> = Vec::new();
    let mut i: usize = 0;
    while i < attestations.len()
        invariant
            i <= attestations.len(),
            copy@ == attestations@.take(i as int),
        decreases attestations.len() - i,
    {
        copy.push(attestations[i]);
        assert(copy@ =~= attestations@.take(i + 1));
        i = i + 1;
    }
    assert(attestations@.take(attestations.len() as int) =~= attestations@);
    copy
}

/// The store of slashing protection data.
pub struct SlashingDatabase {
    mode: InterchangeFormat,
    genesis_validators_root: Option<Hash256>,
    validators: Vec<ValidatorRecord>,
}

impl View for SlashingDatabase {
    type V = Store;

    closed spec fn view(&self) -> Store {
        Store {
            mode: self.mode,
            genesis_validators_root: self.genesis_validators_root,
            validators: views(self.validators@),
        }
    }
}

impl SlashingDatabase {
    /// The store's invariant.
    pub open spec fn wf(&self) -> bool {
        self@.wf()
    }

    /// Creates an empty store in the given mode.
    pub fn new(mode: InterchangeFormat) -> (db: SlashingDatabase)
        ensures
            db@ == Store::empty(mode),
            db.wf(),
    {
        let db = SlashingDatabase { mode, genesis_validators_root: None, validators: Vec::new() };
        assert(db@.validators =~= Seq::empty());
        db
    }

    /// What a store with the given contents holds.
    pub open spec fn contents(
        mode: InterchangeFormat,
        genesis_validators_root: Option<Hash256>,
        validators: Seq<ValidatorRecord>,
    ) -> Store {
        Store { mode, genesis_validators_root, validators: views(validators) }
    }

    /// Builds a store from contents that were saved, where they are well
    /// formed: no key twice, and no history in minimal mode.
    pub fn restore(
        mode: InterchangeFormat,
        genesis_validators_root: Option<Hash256>,
        validators: Vec<ValidatorRecord>,
    ) -> (db: Option<SlashingDatabase>)
        ensures
            db is Some == SlashingDatabase::contents(
                mode,
                genesis_validators_root,
                validators@,
            ).wf(),
            db matches Some(d) ==> d.wf() && d@ == SlashingDatabase::contents(
                mode,
                genesis_validators_root,
                validators@,
            ),
    {
        let ghost store = SlashingDatabase::contents(mode, genesis_validators_root, validators@);
        let n = validators.len();
        let mut i: usize = 0;
        while i < n
            invariant
                i <= n,
                n == validators.len(),
                store == SlashingDatabase::contents(mode, genesis_validators_root, validators@),
                forall|a: int, b: int|
                    0 <= a < b < n && a < i ==> store.validators[a].pubkey
                        != store.validators[b].pubkey,
                mode == InterchangeFormat::Minimal ==> forall|a: int|
                    0 <= a < i ==> {
                        &&& (#[trigger] store.validators[a]).signed_blocks.len() == 0
                        &&& store.validators[a].signed_attestations.len() == 0
                    },
            decreases n - i,
        {
            match mode {
                InterchangeFormat::Minimal => {
                    if validators[i].signed_blocks.len() != 0
                        || validators[i].signed_attestations.len() != 0 {
                        assert(store.validators[i as int] == validators@[i as int]@);
                        return None;
                    }
                },
                InterchangeFormat::Complete => {},
            }
            let mut k: usize = i + 1;
            while k < n
                invariant
                    i < k <= n,
                    n == validators.len(),
                    store == SlashingDatabase::contents(mode, genesis_validators_root, validators@),
                    forall|b: int|
                        i < b < k ==> store.validators[i as int].pubkey
                            != store.validators[b].pubkey,
                decreases n - k,
            {
                if validators[i].pubkey == validators[k].pubkey {
                    assert(store.validators[i as int].pubkey == store.validators[k as int].pubkey);
                    return None;
                }
                k = k + 1;
            }
            assert(store.validators[i as int] == validators@[i as int]@);
            i = i + 1;
        }
        Some(SlashingDatabase { mode, genesis_validators_root, validators })
    }

    /// What the store holds for each validator, in the order of registration.
    pub fn validators(&self) -> (records: &Vec<ValidatorRecord>)
        ensures
            views(records@) == self@.validators,
    {
        &self.validators
    }

    /// The mode the store was created in.
    pub fn mode(&self) -> (mode: InterchangeFormat)
        ensures
            mode == self@.mode,
    {
        self.mode
    }

    /// The genesis validators root the store is bound to, if any.
    pub fn genesis_validators_root(&self) -> (root: Option<Hash256>)
        ensures
            root == self@.genesis_validators_root,
    {
        self.genesis_validators_root
    }

    fn find(&self, pubkey: &PublicKey) -> (found: Option<usize>)
        ensures
            found is Some == self@.is_registered(*pubkey),
            found matches Some(p) ==> p < self.validators.len() && Some(p as int) == position_of(
                self@.validators,
                *pubkey,
                0,
            ),
    {
        let mut i: usize = 0;
        while i < self.validators.len()
            invariant
                i <= self.validators.len(),
                position_of(self@.validators, *pubkey, 0) == position_of(
                    self@.validators,
                    *pubkey,
                    i as int,
                ),
            decreases self.validators.len() - i,
        {
            if self.validators[i].pubkey == *pubkey {
                return Some(i);
            }
            i = i + 1;
        }
        None
    }

    /// Whether the validator is registered.
    pub fn is_registered(&self, pubkey: &PublicKey) -> (registered: bool)
        ensures
            registered == self@.is_registered(*pubkey),
    {
        self.find(pubkey).is_some()
    }

    /// The lower bound on record for the validator, if it is registered.
    pub fn lower_bound(&self, pubkey: &PublicKey) -> (bound: Option<LowerBound>)
        ensures
            bound == self@.lower_bound_of(*pubkey),
    {
        match self.find(pubkey) {
            Some(p) => Some(self.validators[p].lower_bound),
            None => None,
        }
    }

    /// Registers a validator. Registering one that is registered changes nothing.
    pub fn register_validator(&mut self, pubkey: PublicKey)
        requires
            old(self).wf(),
        ensures
            final(self).wf(),
            final(self)@ == old(self)@.register(pubkey),
    {
        if self.find(&pubkey).is_none() {
            proof {
                lemma_position_of(self@.validators, pubkey, 0);
            }
            self.validators.push(
                ValidatorRecord {
                    pubkey,
                    lower_bound: LowerBound::default(),
                    signed_blocks: Vec::new(),
                    signed_attestations: Vec::new(),
                },
            );
            assert(self@.validators =~= old(self)@.validators.push(ValidatorState::fresh(pubkey)));
        }
    }
    /// Decides whether the validator may sign a block at `slot`, and puts a
    /// valid proposal on record. An unsafe verdict leaves the store as it was.
    pub fn check_and_insert_block(
        &mut self,
        pubkey: &PublicKey,
        slot: Slot,
        signing_root: Option<Hash256>,
    ) -> (verdict: Result<Safe, NotSafe>)
        requires
            old(self).wf(),
        ensures
            final(self).wf(),
            verdict == old(self)@.check_block(*pubkey, slot, signing_root),
            final(self)@ == old(self)@.after_block(*pubkey, slot, signing_root),
            verdict is Err ==> final(self)@ == old(self)@,
    {
        let p = match self.find(pubkey) {
            Some(p) => p,
            None => { return Err(NotSafe::UnregisteredValidator); },
        };
        let verdict = check_block(self.mode, &self.validators[p], slot, signing_root);
        if let Ok(Safe::Valid) = verdict {
            proof {
                lemma_position_of(self@.validators, *pubkey, 0);
            }
            let ghost before = self@.validators[p as int];
            let bound = self.validators[p].lower_bound.block_proposal_slot;
            self.validators[p].lower_bound.block_proposal_slot = match bound {
                Some(b) => if b.0 >= slot.0 {
                    Some(b)
                } else {
                    Some(slot)
                },
                None => Some(slot),
            };
            match self.mode {
                InterchangeFormat::Complete => {
                    self.validators[p].signed_blocks.push(SignedBlock { slot, signing_root });
                },
                InterchangeFormat::Minimal => {},
            }
            assert(self@.validators =~= old(self)@.validators.update(
                p as int,
                with_block(self.mode, before, slot, signing_root),
            ));
        }
        verdict
    }

    /// As `check_and_insert_block`, for a block whose signing root is known.
    pub fn check_and_insert_block_signing_root(
        &mut self,
        pubkey: &PublicKey,
        slot: Slot,
        signing_root: Hash256,
    ) -> (verdict: Result<Safe, NotSafe>)
        requires
            old(self).wf(),
        ensures
            final(self).wf(),
            verdict == old(self)@.check_block(*pubkey, slot, Some(signing_root)),
            final(self)@ == old(self)@.after_block(*pubkey, slot, Some(signing_root)),
            verdict is Err ==> final(self)@ == old(self)@,
    {
        self.check_and_insert_block(pubkey, slot, Some(signing_root))
    }

    /// Decides whether the validator may sign an attestation from `source`
    /// to `target`, and puts a valid one on record. An unsafe verdict leaves
    /// the store as it was.
    pub fn check_and_insert_attestation(
        &mut self,
        pubkey: &PublicKey,
        source: Epoch,
        target: Epoch,
        signing_root: Option<Hash256>,
    ) -> (verdict: Result<Safe, NotSafe>)
        requires
            old(self).wf(),
        ensures
            final(self).wf(),
            verdict == old(self)@.check_attestation(*pubkey, source, target, signing_root),
            final(self)@ == old(self)@.after_attestation(*pubkey, source, target, signing_root),
            verdict is Err ==> final(self)@ == old(self)@,
    {
        let p = match self.find(pubkey) {
            Some(p) => p,
            None => { return Err(NotSafe::UnregisteredValidator); },
        };
        let verdict = check_attestation(self.mode, &self.validators[p], source, target, signing_root);
        if let Ok(Safe::Valid) = verdict {
            proof {
                lemma_position_of(self@.validators, *pubkey, 0);
            }
            let ghost before = self@.validators[p as int];
            let source_bound = self.validators[p].lower_bound.attestation_source_epoch;
            let target_bound = self.validators[p].lower_bound.attestation_target_epoch;
            self.validators[p].lower_bound.attestation_source_epoch = match source_bound {
                Some(b) => if b.0 >= source.0 {
                    Some(b)
                } else {
                    Some(source)
                },
                None => Some(source),
            };
            self.validators[p].lower_bound.attestation_target_epoch = match target_bound {
                Some(b) => if b.0 >= target.0 {
                    Some(b)
                } else {
                    Some(target)
                },
                None => Some(target),
            };
            match self.mode {
                InterchangeFormat::Complete => {
                    self.validators[p].signed_attestations.push(
                        SignedAttestation { source_epoch: source, target_epoch: target, signing_root },
                    );
                },
                InterchangeFormat::Minimal => {},
            }
            assert(self@.validators =~= old(self)@.validators.update(
                p as int,
                with_attestation(self.mode, before, source, target, signing_root),
            ));
        }
        verdict
    }

    /// As `check_and_insert_attestation`, for an attestation whose signing
    /// root is known.
    pub fn check_and_insert_attestation_signing_root(
        &mut self,
        pubkey: &PublicKey,
        source: Epoch,
        target: Epoch,
        signing_root: Hash256,
    ) -> (verdict: Result<Safe, NotSafe>)
        requires
            old(self).wf(),
        ensures
            final(self).wf(),
            verdict == old(self)@.check_attestation(*pubkey, source, target, Some(signing_root)),
            final(self)@ == old(self)@.after_attestation(
                *pubkey,
                source,
                target,
                Some(signing_root),
            ),
            verdict is Err ==> final(self)@ == old(self)@,
    {
        self.check_and_insert_attestation(pubkey, source, target, Some(signing_root))
    }
    /// A second store that holds what this one holds.
    pub fn duplicate(&self) -> (copy: SlashingDatabase)
        ensures
            copy@ == self@,
    {
        let mut validators: Vec<ValidatorRecord> = Vec::new();
        let mut i: usize = 0;
        while i < self.validators.len()
            invariant
                i <= self.validators.len(),
                validators@.len() == i,
                views(validators@) == views(self.validators@).take(i as int),
            decreases self.validators.len() - i,
        {
            let record = &self.validators[i];
            validators.push(
                ValidatorRecord {
                    pubkey: record.pubkey,
                    lower_bound: record.lower_bound,
                    signed_blocks: copy_blocks(&record.signed_blocks),
                    signed_attestations: copy_attestations(&record.signed_attestations),
                },
            );
            assert(validators@[i as int]@ == self.validators@[i as int]@);
            assert(views(validators@) =~= views(self.validators@).take(i + 1));
            i = i + 1;
        }
        assert(views(self.validators@).take(self.validators.len() as int) =~= views(
            self.validators@,
        ));
        SlashingDatabase {
            mode: self.mode,
            genesis_validators_root: self.genesis_validators_root,
            validators,
        }
    }

    /// Merges one minimal record into the store. Where the record cannot be
    /// merged the store is left in an unspecified state.
    fn merge_minimal_record(&mut self, record: &MinimalInterchangeData) -> (ok: bool)
        requires
            old(self).wf(),
        ensures
            ok == old(self)@.import_minimal_record(*record) is Some,
            ok ==> final(self).wf() && Some(final(self)@) == old(self)@.import_minimal_record(
                *record,
            ),
    {
        self.register_validator(record.pubkey);
        let ghost registered = self@;
        proof {
            old(self)@.lemma_register(record.pubkey);
            lemma_position_of(registered.validators, record.pubkey, 0);
        }
        let p = match self.find(&record.pubkey) {
            Some(p) => p,
            None => { return false; },
        };
        let merged = self.validators[p].lower_bound.update(
            LowerBound {
                block_proposal_slot: record.last_signed_block_slot,
                attestation_source_epoch: record.last_signed_attestation_source_epoch,
                attestation_target_epoch: record.last_signed_attestation_target_epoch,
            },
        );
        if !merged.consistent() {
            return false;
        }
        let ghost state = registered.validators[p as int];
        self.validators[p].lower_bound = merged;
        assert(self@.validators =~= registered.validators.update(
            p as int,
            ValidatorState {
                pubkey: state.pubkey,
                lower_bound: merged,
                signed_blocks: state.signed_blocks,
                signed_attestations: state.signed_attestations,
            },
        ));
        true
    }

    /// Merges one complete record into the store. Where the record cannot
    /// be merged the store is left in an unspecified state.
    fn merge_complete_record(&mut self, record: &CompleteInterchangeData) -> (ok: bool)
        requires
            old(self).wf(),
        ensures
            ok == old(self)@.import_complete_record(record@) is Some,
            ok ==> final(self).wf() && Some(final(self)@) == old(self)@.import_complete_record(
                record@,
            ),
    {
        self.register_validator(record.pubkey);
        let ghost registered = self@;
        proof {
            old(self)@.lemma_register(record.pubkey);
            lemma_position_of(registered.validators, record.pubkey, 0);
        }
        let p = match self.find(&record.pubkey) {
            Some(p) => p,
            None => { return false; },
        };
        let ghost state = registered.validators[p as int];
        let before = self.validators[p].lower_bound;
        let merged = before.update(implied_bound(record));
        if !merged.consistent() {
            return false;
        }
        match self.mode {
            InterchangeFormat::Complete => {
                if !take_in_blocks(
                    &mut self.validators[p].signed_blocks,
                    before.block_proposal_slot,
                    &record.signed_blocks,
                ) {
                    return false;
                }
                if !take_in_attestations(
                    &mut self.validators[p].signed_attestations,
                    before,
                    &record.signed_attestations,
                ) {
                    return false;
                }
            },
            InterchangeFormat::Minimal => {},
        }
        self.validators[p].lower_bound = merged;
        assert(self@.validators =~= registered.validators.update(
            p as int,
            ValidatorState {
                pubkey: state.pubkey,
                lower_bound: merged,
                signed_blocks: self.validators@[p as int].signed_blocks@,
                signed_attestations: self.validators@[p as int].signed_attestations@,
            },
        ));
        true
    }

    /// Merges an interchange document into the store, or says why it cannot
    /// be merged. A document that is refused leaves the store as it was.
    #[verifier::loop_isolation(false)]
    pub fn import_interchange_info(
        &mut self,
        interchange: &Interchange,
        genesis_validators_root: Hash256,
    ) -> (res: Result<(), ImportError>)
        requires
            old(self).wf(),
        ensures
            final(self).wf(),
            match old(self)@.import(interchange@, genesis_validators_root) {
                Ok(store) => res is Ok && final(self)@ == store,
                Err(e) => res == Err::<(), ImportError>(e) && final(self)@ == old(self)@,
            },
    {
        if interchange.metadata.interchange_format_version != SUPPORTED_INTERCHANGE_FORMAT_VERSION {
            return Err(ImportError::UnsupportedVersion);
        }
        if interchange.metadata.genesis_validators_root != genesis_validators_root {
            return Err(ImportError::GenesisRootMismatch);
        }
        if let Some(bound_root) = self.genesis_validators_root {
            if bound_root != genesis_validators_root {
                return Err(ImportError::GenesisRootMismatch);
            }
        }
        let mut staged = self.duplicate();
        staged.genesis_validators_root = Some(genesis_validators_root);
        let ghost start = staged@;
        assert(start == old(self)@.bound_to(genesis_validators_root));
        match &interchange.data {
            InterchangeData::Minimal(records) => {
                let mut i: usize = 0;
                while i < records.len()
                    invariant
                        i <= records.len(),
                        staged.wf(),
                        Ok::<Store, ImportError>(staged@) == start.import_minimal(
                            records@,
                            i as nat,
                        ),
                    decreases records.len() - i,
                {
                    if !staged.merge_minimal_record(&records[i]) {
                        proof {
                            lemma_import_minimal_stays_failed(
                                start,
                                records@,
                                (i + 1) as nat,
                                records@.len(),
                            );
                        }
                        return Err(ImportError::InterchangeConflict { pubkey: records[i].pubkey });
                    }
                    i = i + 1;
                }
            },
            InterchangeData::Complete(records) => {
                let mut i: usize = 0;
                while i < records.len()
                    invariant
                        i <= records.len(),
                        staged.wf(),
                        Ok::<Store, ImportError>(staged@) == start.import_complete(
                            views(records@),
                            i as nat,
                        ),
                    decreases records.len() - i,
                {
                    if !staged.merge_complete_record(&records[i]) {
                        proof {
                            lemma_import_complete_stays_failed(
                                start,
                                views(records@),
                                (i + 1) as nat,
                                records@.len(),
                            );
                        }
                        return Err(ImportError::InterchangeConflict { pubkey: records[i].pubkey });
                    }
                    i = i + 1;
                }
            },
        }
        *self = staged;
        Ok(())
    }

    /// Describes the store as an interchange document in the given format.
    pub fn export_interchange_info(&self, format: InterchangeFormat) -> (interchange: Interchange)
        ensures
            interchange@ == self@.export(format),
    {
        let metadata = InterchangeMetadata {
            interchange_format: format,
            interchange_format_version: SUPPORTED_INTERCHANGE_FORMAT_VERSION,
            genesis_validators_root: match self.genesis_validators_root {
                Some(root) => root,
                None => Hash256::zero(),
            },
        };
        let data = match format {
            InterchangeFormat::Minimal => {
                let mut records: Vec<MinimalInterchangeData> = Vec::new();
                let mut i: usize = 0;
                while i < self.validators.len()
                    invariant
                        i <= self.validators.len(),
                        records@.len() == i,
                        forall|j: int|
                            0 <= j < i ==> records@[j] == minimal_record(self@.validators[j]),
                    decreases self.validators.len() - i,
                {
                    let record = &self.validators[i];
                    records.push(
                        MinimalInterchangeData {
                            pubkey: record.pubkey,
                            last_signed_block_slot: record.lower_bound.block_proposal_slot,
                            last_signed_attestation_source_epoch:
                                record.lower_bound.attestation_source_epoch,
                            last_signed_attestation_target_epoch:
                                record.lower_bound.attestation_target_epoch,
                        },
                    );
                    i = i + 1;
                }
                assert(records@ =~= Seq::new(
                    self@.validators.len(),
                    |i: int| minimal_record(self@.validators[i]),
                ));
                InterchangeData::Minimal(records)
            },
            InterchangeFormat::Complete => {
                let mut records: Vec<CompleteInterchangeData> = Vec::new();
                let mut i: usize = 0;
                while i < self.validators.len()
                    invariant
                        i <= self.validators.len(),
                        records@.len() == i,
                        forall|j: int|
                            0 <= j < i ==> records@[j]@ == complete_record(self@.validators[j]),
                    decreases self.validators.len() - i,
                {
                    let record = &self.validators[i];
                    records.push(
                        CompleteInterchangeData {
                            pubkey: record.pubkey,
                            signed_blocks: copy_blocks(&record.signed_blocks),
                            signed_attestations: copy_attestations(&record.signed_attestations),
                        },
                    );
                    i = i + 1;
                }
                assert(views(records@) =~= Seq::new(
                    self@.validators.len(),
                    |i: int| complete_record(self@.validators[i]),
                ));
                InterchangeData::Complete(records)
            },
        };
        Interchange { metadata, data }
    }
}

/// Once a minimal record cannot be merged, no longer prefix of the list can,
/// and the conflict named stays the same.
proof fn lemma_import_minimal_stays_failed(
    store: Store,
    records: Seq<MinimalInterchangeData>,
    k: nat,
    n: nat,
)
    requires
        k <= n,
        store.import_minimal(records, k) is Err,
    ensures
        store.import_minimal(records, n) == store.import_minimal(records, k),
    decreases n,
{
    if k < n {
        lemma_import_minimal_stays_failed(store, records, k, (n - 1) as nat);
    }
}

/// Once a complete record cannot be merged, no longer prefix of the list
/// can, and the conflict named stays the same.
proof fn lemma_import_complete_stays_failed(
    store: Store,
    records: Seq<crate::interchange::CompleteRecord>,
    k: nat,
    n: nat,
)
    requires
        k <= n,
        store.import_complete(records, k) is Err,
    ensures
        store.import_complete(records, n) == store.import_complete(records, k),
    decreases n,
{
    if k < n {
        lemma_import_complete_stays_failed(store, records, k, (n - 1) as nat);
    }
}

} // verus!
