//! Import and export of interchange documents, as functions on the store
//! model.

use crate::interchange::{
    CompleteRecord, Document, InterchangeFormat, InterchangeMetadata, MinimalInterchangeData,
    Records, SignedAttestation, SignedBlock, SUPPORTED_INTERCHANGE_FORMAT_VERSION,
};
use crate::lower_bound::{max_slot, LowerBound};
use crate::store::{first_around, first_block_at, first_with_target, first_within, Store, ValidatorState};
use crate::types::{zero_root, Hash256, PublicKey, Slot};
use vstd::prelude::*;

verus! {

/// Why a document was not imported. Nothing of it has then reached the store.
#[derive(Clone, Copy, Debug, PartialEq, Eq)]
pub enum ImportError {
    /// The document's format version is not the supported one.
    UnsupportedVersion,
    /// The document, the caller and the store do not all name the same chain.
    GenesisRootMismatch,
    /// The record of this validator cannot be reconciled with the store.
    InterchangeConflict { pubkey: PublicKey },
}

/// The highest slot among the first `n` blocks.
pub open spec fn highest_slot(blocks: Seq<SignedBlock>, n: nat) -> Option<Slot>
    decreases n,
{
    if n == 0 {
        None
    } else {
        max_slot(highest_slot(blocks, (n - 1) as nat), Some(blocks[n - 1].slot))
    }
}

/// Among the first `n` attestations, the first one with the highest target.
pub open spec fn highest_attestation(attestations: Seq<SignedAttestation>, n: nat) -> Option<
    SignedAttestation,
>
    decreases n,
{
    if n == 0 {
        None
    } else {
        let earlier = highest_attestation(attestations, (n - 1) as nat);
        if earlier is Some && earlier.unwrap().target_epoch.0 >= attestations[n - 1].target_epoch.0 {
            earlier
        } else {
            Some(attestations[n - 1])
        }
    }
}

impl CompleteRecord {
    /// The lower bound that a complete record implies: the highest slot of
    /// its blocks, the highest target of its attestations and the source
    /// that comes with that target.
    pub open spec fn bound(self) -> LowerBound {
        let top = highest_attestation(self.signed_attestations, self.signed_attestations.len());
        LowerBound {
            block_proposal_slot: highest_slot(self.signed_blocks, self.signed_blocks.len()),
            attestation_source_epoch: match top {
                Some(a) => Some(a.source_epoch),
                None => None,
            },
            attestation_target_epoch: match top {
                Some(a) => Some(a.target_epoch),
                None => None,
            },
        }
    }
}

/// The history after one block of a document was taken in, or `None` where
/// it cannot be: a block already on record is skipped; a new one must lie
/// above `bound`, the bound the validator had before the import, and at a
/// slot for which nothing is on record.
pub open spec fn import_block(history: Seq<SignedBlock>, bound: Option<Slot>, entry: SignedBlock) -> Option<
    Seq<SignedBlock>,
> {
    if history.contains(entry) {
        Some(history)
    } else if bound is Some && entry.slot.0 <= bound.unwrap().0 {
        None
    } else if first_block_at(history, entry.slot, 0) is Some {
        None
    } else {
        Some(history.push(entry))
    }
}

/// The history after the first `n` blocks of `entries` were taken in, in order.
pub open spec fn import_blocks(
    history: Seq<SignedBlock>,
    bound: Option<Slot>,
    entries: Seq<SignedBlock>,
    n: nat,
) -> Option<Seq<SignedBlock>>
    decreases n,
{
    if n == 0 {
        Some(history)
    } else {
        match import_blocks(history, bound, entries, (n - 1) as nat) {
            Some(h) => import_block(h, bound, entries[n - 1]),
            None => None,
        }
    }
}

/// The history after one attestation of a document was taken in, or `None`
/// where it cannot be: an attestation already on record is skipped; a new
/// one must have its source at or below its target, lie above `bound`, the
/// bound the validator had before the import, and neither surround, be
/// surrounded by, nor share its target with anything on record.
pub open spec fn import_attestation(
    history: Seq<SignedAttestation>,
    bound: LowerBound,
    entry: SignedAttestation,
) -> Option<Seq<SignedAttestation>> {
    let source = entry.source_epoch;
    let target = entry.target_epoch;
    if history.contains(entry) {
        Some(history)
    } else if source.0 > target.0 {
        None
    } else if bound.attestation_target_epoch is Some && target.0
        <= bound.attestation_target_epoch.unwrap().0 {
        None
    } else if bound.attestation_source_epoch is Some && source.0
        < bound.attestation_source_epoch.unwrap().0 {
        None
    } else if first_around(history, source, target, 0) is Some {
        None
    } else if first_within(history, source, target, 0) is Some {
        None
    } else if first_with_target(history, target, 0) is Some {
        None
    } else {
        Some(history.push(entry))
    }
}

/// The history after the first `n` attestations of `entries` were taken in,
/// in order.
pub open spec fn import_attestations(
    history: Seq<SignedAttestation>,
    bound: LowerBound,
    entries: Seq<SignedAttestation>,
    n: nat,
) -> Option<Seq<SignedAttestation>>
    decreases n,
{
    if n == 0 {
        Some(history)
    } else {
        match import_attestations(history, bound, entries, (n - 1) as nat) {
            Some(h) => import_attestation(h, bound, entries[n - 1]),
            None => None,
        }
    }
}

/// The record of a validator as a minimal interchange record.
pub open spec fn minimal_record(state: ValidatorState) -> MinimalInterchangeData {
    MinimalInterchangeData {
        pubkey: state.pubkey,
        last_signed_block_slot: state.lower_bound.block_proposal_slot,
        last_signed_attestation_source_epoch: state.lower_bound.attestation_source_epoch,
        last_signed_attestation_target_epoch: state.lower_bound.attestation_target_epoch,
    }
}

/// The record of a validator as a complete interchange record.
pub open spec fn complete_record(state: ValidatorState) -> CompleteRecord {
    CompleteRecord {
        pubkey: state.pubkey,
        signed_blocks: state.signed_blocks,
        signed_attestations: state.signed_attestations,
    }
}

impl Store {
    /// The store after one minimal record was merged in: the validator is
    /// registered and its bound becomes the pointwise maximum of the bound
    /// on record and the record's. `None` where that maximum is not
    /// consistent.
    pub open spec fn import_minimal_record(self, record: MinimalInterchangeData) -> Option<Store> {
        let registered = self.register(record.pubkey);
        let state = registered.state_of(record.pubkey);
        let merged = state.lower_bound.join(record.bound());
        if merged.is_consistent() {
            Some(
                registered.with_state(
                    record.pubkey,
                    ValidatorState {
                        pubkey: state.pubkey,
                        lower_bound: merged,
                        signed_blocks: state.signed_blocks,
                        signed_attestations: state.signed_attestations,
                    },
                ),
            )
        } else {
            None
        }
    }

    /// The store after one complete record was merged in: the validator is
    /// registered, its bound becomes the pointwise maximum of the bound on
    /// record and the one the record implies, and a store in complete mode
    /// takes the record's blocks and attestations into its history. `None`
    /// where the maximum is not consistent or an entry cannot be taken in.
    pub open spec fn import_complete_record(self, record: CompleteRecord) -> Option<Store> {
        let registered = self.register(record.pubkey);
        let state = registered.state_of(record.pubkey);
        let merged = state.lower_bound.join(record.bound());
        let complete = self.mode == InterchangeFormat::Complete;
        let blocks = if complete {
            import_blocks(
                state.signed_blocks,
                state.lower_bound.block_proposal_slot,
                record.signed_blocks,
                record.signed_blocks.len(),
            )
        } else {
            Some(state.signed_blocks)
        };
        let attestations = if complete {
            import_attestations(
                state.signed_attestations,
                state.lower_bound,
                record.signed_attestations,
                record.signed_attestations.len(),
            )
        } else {
            Some(state.signed_attestations)
        };
        if merged.is_consistent() && blocks is Some && attestations is Some {
            Some(
                registered.with_state(
                    record.pubkey,
                    ValidatorState {
                        pubkey: state.pubkey,
                        lower_bound: merged,
                        signed_blocks: blocks.unwrap(),
                        signed_attestations: attestations.unwrap(),
                    },
                ),
            )
        } else {
            None
        }
    }

    /// The store after the first `n` minimal records were merged in, in
    /// order, or the conflict that the first failing record raises.
    pub open spec fn import_minimal(self, records: Seq<MinimalInterchangeData>, n: nat) -> Result<
        Store,
        ImportError,
    >
        decreases n,
    {
        if n == 0 {
            Ok(self)
        } else {
            match self.import_minimal(records, (n - 1) as nat) {
                Ok(store) => match store.import_minimal_record(records[n - 1]) {
                    Some(next) => Ok(next),
                    None => Err(ImportError::InterchangeConflict { pubkey: records[n - 1].pubkey }),
                },
                Err(e) => Err(e),
            }
        }
    }

    /// The store after the first `n` complete records were merged in, in
    /// order, or the conflict that the first failing record raises.
    pub open spec fn import_complete(self, records: Seq<CompleteRecord>, n: nat) -> Result<
        Store,
        ImportError,
    >
        decreases n,
    {
        if n == 0 {
            Ok(self)
        } else {
            match self.import_complete(records, (n - 1) as nat) {
                Ok(store) => match store.import_complete_record(records[n - 1]) {
                    Some(next) => Ok(next),
                    None => Err(ImportError::InterchangeConflict { pubkey: records[n - 1].pubkey }),
                },
                Err(e) => Err(e),
            }
        }
    }

    /// The store after all records were merged in.
    pub open spec fn import_records(self, records: Records) -> Result<Store, ImportError> {
        match records {
            Records::Minimal(m) => self.import_minimal(m, m.len()),
            Records::Complete(c) => self.import_complete(c, c.len()),
        }
    }

    /// The store bound to the chain with the given genesis validators root.
    pub open spec fn bound_to(self, root: Hash256) -> Store {
        Store {
            mode: self.mode,
            genesis_validators_root: Some(root),
            validators: self.validators,
        }
    }

    /// The store after a document was imported, or why it was not. The
    /// version must be the supported one; the document, the caller and the
    /// store, where it is bound already, must name the same chain; every
    /// record must merge. On success the store is bound to that chain.
    pub open spec fn import(self, document: Document, expected_root: Hash256) -> Result<
        Store,
        ImportError,
    > {
        if document.metadata.interchange_format_version != SUPPORTED_INTERCHANGE_FORMAT_VERSION {
            Err(ImportError::UnsupportedVersion)
        } else if document.metadata.genesis_validators_root != expected_root {
            Err(ImportError::GenesisRootMismatch)
        } else if self.genesis_validators_root is Some && self.genesis_validators_root != Some(
            expected_root,
        ) {
            Err(ImportError::GenesisRootMismatch)
        } else {
            self.bound_to(expected_root).import_records(document.data)
        }
    }

    /// The document that describes the store in the given format: one
    /// record for each validator, in the order of registration. A store
    /// that is bound to no chain writes the all-zero root.
    pub open spec fn export(self, format: InterchangeFormat) -> Document {
        Document {
            metadata: InterchangeMetadata {
                interchange_format: format,
                interchange_format_version: SUPPORTED_INTERCHANGE_FORMAT_VERSION,
                genesis_validators_root: match self.genesis_validators_root {
                    Some(root) => root,
                    None => zero_root(),
                },
            },
            data: match format {
                InterchangeFormat::Minimal => Records::Minimal(
                    Seq::new(self.validators.len(), |i: int| minimal_record(self.validators[i])),
                ),
                InterchangeFormat::Complete => Records::Complete(
                    Seq::new(self.validators.len(), |i: int| complete_record(self.validators[i])),
                ),
            },
        }
    }
}

} // verus!
