use slashing_protection::interchange::{
    CompleteInterchangeData, Interchange, InterchangeData, InterchangeFormat,
    InterchangeMetadata, MinimalInterchangeData, SignedAttestation, SignedBlock,
};
use slashing_protection::lower_bound::{ColumnValue, LowerBound, Row, RowError};
use slashing_protection::slashing_database::{
    check_attestation, check_block, implied_bound, ValidatorRecord,
};
use slashing_protection::test_utils::pubkey;
use slashing_protection::types::{Epoch, Hash256, PublicKey, Slot};
use slashing_protection::{
    ImportError, InvalidAttestation, InvalidBlock, NotSafe, Safe, SlashingDatabase,
    SUPPORTED_INTERCHANGE_FORMAT_VERSION,
};

fn root(n: u64) -> Hash256 {
    Hash256::from_low_u64_be(n)
}

fn block(slot: u64, r: Option<u64>) -> SignedBlock {
    SignedBlock { slot: Slot::new(slot), signing_root: r.map(root) }
}

fn attestation(source: u64, target: u64, r: Option<u64>) -> SignedAttestation {
    SignedAttestation {
        source_epoch: Epoch::new(source),
        target_epoch: Epoch::new(target),
        signing_root: r.map(root),
    }
}

fn bound(slot: Option<u64>, source: Option<u64>, target: Option<u64>) -> LowerBound {
    LowerBound {
        block_proposal_slot: slot.map(Slot::new),
        attestation_source_epoch: source.map(Epoch::new),
        attestation_target_epoch: target.map(Epoch::new),
    }
}

fn record(
    i: usize,
    lower_bound: LowerBound,
    blocks: Vec<SignedBlock>,
    attestations: Vec<SignedAttestation>,
) -> ValidatorRecord {
    ValidatorRecord {
        pubkey: pubkey(i),
        lower_bound,
        signed_blocks: blocks,
        signed_attestations: attestations,
    }
}

fn complete_doc(genesis: Hash256, data: Vec<CompleteInterchangeData>) -> Interchange {
    Interchange {
        metadata: InterchangeMetadata {
            interchange_format: InterchangeFormat::Complete,
            interchange_format_version: SUPPORTED_INTERCHANGE_FORMAT_VERSION,
            genesis_validators_root: genesis,
        },
        data: InterchangeData::Complete(data),
    }
}

fn minimal_doc(genesis: Hash256, data: Vec<MinimalInterchangeData>) -> Interchange {
    Interchange {
        metadata: InterchangeMetadata {
            interchange_format: InterchangeFormat::Minimal,
            interchange_format_version: SUPPORTED_INTERCHANGE_FORMAT_VERSION,
            genesis_validators_root: genesis,
        },
        data: InterchangeData::Minimal(data),
    }
}

#[test]
fn test_keys_differ() {
    let keys: Vec<PublicKey> = (0..300).map(pubkey).collect();
    for i in 0..keys.len() {
        for j in 0..i {
            assert_ne!(keys[i], keys[j]);
        }
    }
    assert_eq!(pubkey(0).as_bytes(), [0u8; 48]);
    assert_eq!(pubkey(0x0102).as_bytes()[46..], [1, 2]);
    assert_eq!(PublicKey::from_bytes(pubkey(5).as_bytes()), pubkey(5));
}

#[test]
fn new_store_is_empty() {
    for mode in [InterchangeFormat::Minimal, InterchangeFormat::Complete] {
        let db = SlashingDatabase::new(mode);
        assert_eq!(db.mode(), mode);
        assert_eq!(db.genesis_validators_root(), None);
        assert!(db.validators().is_empty());
        assert!(!db.is_registered(&pubkey(0)));
        assert_eq!(db.lower_bound(&pubkey(0)), None);
        let doc = db.export_interchange_info(mode);
        assert_eq!(doc.len(), 0);
        assert_eq!(doc.metadata.genesis_validators_root, Hash256::zero());
        assert_eq!(doc.metadata.interchange_format, mode);
        assert_eq!(doc.metadata.interchange_format_version, 5);
    }
}

#[test]
fn registration_is_idempotent() {
    let mut db = SlashingDatabase::new(InterchangeFormat::Complete);
    db.register_validator(pubkey(1));
    db.register_validator(pubkey(0));
    db.register_validator(pubkey(1));
    assert_eq!(db.validators().len(), 2);
    assert_eq!(db.validators()[0].pubkey, pubkey(1));
    assert_eq!(db.validators()[1].pubkey, pubkey(0));
    assert!(db.is_registered(&pubkey(0)));
    assert!(!db.is_registered(&pubkey(2)));
    assert_eq!(db.lower_bound(&pubkey(1)), Some(LowerBound::default()));
    // Registering again does not wipe what was signed.
    db.check_and_insert_block(&pubkey(1), Slot::new(4), None).unwrap();
    db.register_validator(pubkey(1));
    assert_eq!(db.lower_bound(&pubkey(1)), Some(bound(Some(4), None, None)));
}

#[test]
fn unregistered_validator_signs_nothing() {
    let mut db = SlashingDatabase::new(InterchangeFormat::Minimal);
    db.register_validator(pubkey(0));
    assert_eq!(
        db.check_and_insert_block(&pubkey(1), Slot::new(1), None),
        Err(NotSafe::UnregisteredValidator)
    );
    assert_eq!(
        db.check_and_insert_attestation(&pubkey(1), Epoch::new(0), Epoch::new(1), None),
        Err(NotSafe::UnregisteredValidator)
    );
    assert_eq!(db.validators().len(), 1);
}

#[test]
fn slot_zero_is_a_slot() {
    let mut db = SlashingDatabase::new(InterchangeFormat::Minimal);
    db.register_validator(pubkey(0));
    // Nothing on record: slot 0 and target 0 may be signed.
    assert_eq!(db.check_and_insert_block(&pubkey(0), Slot::new(0), None), Ok(Safe::Valid));
    assert_eq!(
        db.check_and_insert_attestation(&pubkey(0), Epoch::new(0), Epoch::new(0), None),
        Ok(Safe::Valid)
    );
    assert_eq!(db.lower_bound(&pubkey(0)), Some(bound(Some(0), Some(0), Some(0))));
    // On record at 0: 0 is turned down.
    assert_eq!(
        db.check_and_insert_block(&pubkey(0), Slot::new(0), None),
        Err(NotSafe::InvalidBlock(InvalidBlock::SlotViolatesLowerBound {
            proposed: Slot::new(0),
            bound: Slot::new(0),
        }))
    );
    assert_eq!(
        db.check_and_insert_attestation(&pubkey(0), Epoch::new(0), Epoch::new(0), None),
        Err(NotSafe::InvalidAttestation(InvalidAttestation::TargetViolatesLowerBound {
            proposed: Epoch::new(0),
            bound: Epoch::new(0),
        }))
    );
}

#[test]
fn attestation_rules_in_order() {
    let mut db = SlashingDatabase::new(InterchangeFormat::Minimal);
    let pk = pubkey(0);
    db.register_validator(pk);
    assert_eq!(
        db.check_and_insert_attestation(&pk, Epoch::new(3), Epoch::new(2), None),
        Err(NotSafe::InvalidAttestation(InvalidAttestation::SourceExceedsTarget))
    );
    assert_eq!(db.lower_bound(&pk), Some(LowerBound::default()));
    assert_eq!(
        db.check_and_insert_attestation(&pk, Epoch::new(4), Epoch::new(8), Some(root(1))),
        Ok(Safe::Valid)
    );
    assert_eq!(db.lower_bound(&pk), Some(bound(None, Some(4), Some(8))));
    // Source above target comes before the bounds.
    assert_eq!(
        db.check_and_insert_attestation(&pk, Epoch::new(9), Epoch::new(8), None),
        Err(NotSafe::InvalidAttestation(InvalidAttestation::SourceExceedsTarget))
    );
    // The target bound comes before the source bound.
    assert_eq!(
        db.check_and_insert_attestation(&pk, Epoch::new(3), Epoch::new(8), None),
        Err(NotSafe::InvalidAttestation(InvalidAttestation::TargetViolatesLowerBound {
            proposed: Epoch::new(8),
            bound: Epoch::new(8),
        }))
    );
    assert_eq!(
        db.check_and_insert_attestation(&pk, Epoch::new(3), Epoch::new(9), None),
        Err(NotSafe::InvalidAttestation(InvalidAttestation::SourceViolatesLowerBound))
    );
    assert_eq!(db.lower_bound(&pk), Some(bound(None, Some(4), Some(8))));
    assert_eq!(
        db.check_and_insert_attestation_signing_root(&pk, Epoch::new(4), Epoch::new(9), root(2)),
        Ok(Safe::Valid)
    );
    assert_eq!(db.lower_bound(&pk), Some(bound(None, Some(4), Some(9))));
}

#[test]
fn complete_mode_keeps_history() {
    let mut db = SlashingDatabase::new(InterchangeFormat::Complete);
    let pk = pubkey(0);
    db.register_validator(pk);
    db.check_and_insert_block(&pk, Slot::new(3), Some(root(1))).unwrap();
    db.check_and_insert_block_signing_root(&pk, Slot::new(5), root(2)).unwrap();
    db.check_and_insert_block(&pk, Slot::new(4), None).unwrap_err();
    db.check_and_insert_attestation(&pk, Epoch::new(0), Epoch::new(1), None).unwrap();
    db.check_and_insert_attestation(&pk, Epoch::new(1), Epoch::new(2), Some(root(3))).unwrap();
    let rec = &db.validators()[0];
    assert_eq!(rec.signed_blocks, vec![block(3, Some(1)), block(5, Some(2))]);
    assert_eq!(rec.signed_attestations, vec![attestation(0, 1, None), attestation(1, 2, Some(3))]);
    assert_eq!(rec.lower_bound, bound(Some(5), Some(1), Some(2)));

    let mut minimal = SlashingDatabase::new(InterchangeFormat::Minimal);
    minimal.register_validator(pk);
    minimal.check_and_insert_block(&pk, Slot::new(3), Some(root(1))).unwrap();
    minimal.check_and_insert_attestation(&pk, Epoch::new(0), Epoch::new(1), None).unwrap();
    assert!(minimal.validators()[0].signed_blocks.is_empty());
    assert!(minimal.validators()[0].signed_attestations.is_empty());
    assert_eq!(minimal.validators()[0].lower_bound, bound(Some(3), Some(0), Some(1)));
}

#[test]
fn history_beyond_the_bound_is_held_against_a_block() {
    let rec = record(0, bound(Some(5), None, None), vec![block(9, Some(1)), block(12, None)], vec![]);
    let complete = InterchangeFormat::Complete;
    assert_eq!(check_block(complete, &rec, Slot::new(9), Some(root(1))), Ok(Safe::SameData));
    assert_eq!(
        check_block(complete, &rec, Slot::new(9), Some(root(2))),
        Err(NotSafe::InvalidBlock(InvalidBlock::DoubleBlockProposal {
            existing_root: Some(root(1)),
            proposed_root: Some(root(2)),
        }))
    );
    assert_eq!(
        check_block(complete, &rec, Slot::new(9), None),
        Err(NotSafe::InvalidBlock(InvalidBlock::DoubleBlockProposal {
            existing_root: Some(root(1)),
            proposed_root: None,
        }))
    );
    // Two absent roots are no replay.
    assert_eq!(
        check_block(complete, &rec, Slot::new(12), None),
        Err(NotSafe::InvalidBlock(InvalidBlock::DoubleBlockProposal {
            existing_root: None,
            proposed_root: None,
        }))
    );
    assert_eq!(check_block(complete, &rec, Slot::new(10), None), Ok(Safe::Valid));
    assert_eq!(
        check_block(complete, &rec, Slot::new(5), Some(root(1))),
        Err(NotSafe::InvalidBlock(InvalidBlock::SlotViolatesLowerBound {
            proposed: Slot::new(5),
            bound: Slot::new(5),
        }))
    );
    // In minimal mode the history is not looked at.
    assert_eq!(
        check_block(InterchangeFormat::Minimal, &rec, Slot::new(9), Some(root(2))),
        Ok(Safe::Valid)
    );
}

#[test]
fn history_beyond_the_bound_is_held_against_an_attestation() {
    let rec = record(
        0,
        bound(None, Some(2), Some(3)),
        vec![],
        vec![attestation(10, 20, Some(1)), attestation(30, 31, None)],
    );
    let complete = InterchangeFormat::Complete;
    let check = |s: u64, t: u64, r: Option<u64>| {
        check_attestation(complete, &rec, Epoch::new(s), Epoch::new(t), r.map(root))
    };
    // The one on record from 10 to 20 starts before 12 and ends after 15.
    assert_eq!(
        check(12, 15, None),
        Err(NotSafe::InvalidAttestation(InvalidAttestation::NewSurroundsPrev {
            prev_source: Epoch::new(10),
            prev_target: Epoch::new(20),
        }))
    );
    // The one on record from 10 to 20 starts after 5 and ends before 25.
    assert_eq!(
        check(5, 25, None),
        Err(NotSafe::InvalidAttestation(InvalidAttestation::PrevSurroundsNew {
            prev_source: Epoch::new(10),
            prev_target: Epoch::new(20),
        }))
    );
    assert_eq!(check(10, 20, Some(1)), Ok(Safe::SameData));
    assert_eq!(check(11, 20, Some(1)), Ok(Safe::SameData));
    assert_eq!(
        check(10, 20, Some(2)),
        Err(NotSafe::InvalidAttestation(InvalidAttestation::DoubleVote {
            existing_root: Some(root(1)),
            proposed_root: Some(root(2)),
        }))
    );
    assert_eq!(
        check(30, 31, None),
        Err(NotSafe::InvalidAttestation(InvalidAttestation::DoubleVote {
            existing_root: None,
            proposed_root: None,
        }))
    );
    assert_eq!(check(20, 30, None), Ok(Safe::Valid));
    assert_eq!(check(10, 21, None), Ok(Safe::Valid));
    assert_eq!(
        check(1, 40, None),
        Err(NotSafe::InvalidAttestation(InvalidAttestation::SourceViolatesLowerBound))
    );
    assert_eq!(
        check_attestation(InterchangeFormat::Minimal, &rec, Epoch::new(12), Epoch::new(15), None),
        Ok(Safe::Valid)
    );
}

#[test]
fn inconsistent_record_is_fatal() {
    let rec = record(0, bound(Some(1), Some(9), Some(3)), vec![], vec![]);
    for mode in [InterchangeFormat::Minimal, InterchangeFormat::Complete] {
        assert_eq!(check_block(mode, &rec, Slot::new(50), None), Err(NotSafe::ConsistencyError));
        assert_eq!(
            check_attestation(mode, &rec, Epoch::new(10), Epoch::new(11), None),
            Err(NotSafe::ConsistencyError)
        );
        // Before everything else, also before the test of source against target.
        assert_eq!(
            check_attestation(mode, &rec, Epoch::new(12), Epoch::new(11), None),
            Err(NotSafe::ConsistencyError)
        );
    }
    let mut db =
        SlashingDatabase::restore(InterchangeFormat::Minimal, None, vec![rec.clone()]).unwrap();
    assert_eq!(
        db.check_and_insert_block(&pubkey(0), Slot::new(50), None),
        Err(NotSafe::ConsistencyError)
    );
    assert_eq!(db.validators()[0].lower_bound, rec.lower_bound);
    assert!(bound(None, Some(3), Some(3)).consistent());
    assert!(bound(None, Some(9), None).consistent());
    assert!(!bound(None, Some(9), Some(3)).consistent());
}

#[test]
fn restore_checks_the_contents() {
    let a = record(0, bound(Some(1), None, None), vec![block(1, None)], vec![]);
    let b = record(1, LowerBound::default(), vec![], vec![]);
    let genesis = Some(root(9));
    let db = SlashingDatabase::restore(InterchangeFormat::Complete, genesis, vec![
        a.clone(),
        b.clone(),
    ])
    .unwrap();
    assert_eq!(db.mode(), InterchangeFormat::Complete);
    assert_eq!(db.genesis_validators_root(), genesis);
    assert_eq!(db.validators().len(), 2);
    assert_eq!(db.validators()[0].signed_blocks, vec![block(1, None)]);
    assert_eq!(db.lower_bound(&pubkey(0)), Some(bound(Some(1), None, None)));
    // The same key twice.
    assert!(SlashingDatabase::restore(InterchangeFormat::Complete, None, vec![
        a.clone(),
        b.clone(),
        a.clone()
    ])
    .is_none());
    // History in minimal mode.
    assert!(SlashingDatabase::restore(InterchangeFormat::Minimal, None, vec![a.clone()]).is_none());
    assert!(SlashingDatabase::restore(InterchangeFormat::Minimal, None, vec![b.clone()]).is_some());
    assert!(SlashingDatabase::restore(InterchangeFormat::Minimal, None, vec![]).is_some());
    let copy = db.duplicate();
    assert_eq!(copy.validators().len(), 2);
    assert_eq!(copy.validators()[0].signed_blocks, db.validators()[0].signed_blocks);
    assert_eq!(copy.genesis_validators_root(), genesis);
}

#[test]
fn unsafe_verdict_changes_nothing() {
    let mut db = SlashingDatabase::new(InterchangeFormat::Complete);
    let pk = pubkey(0);
    db.register_validator(pk);
    db.check_and_insert_block(&pk, Slot::new(10), Some(root(1))).unwrap();
    db.check_and_insert_attestation(&pk, Epoch::new(5), Epoch::new(6), Some(root(2))).unwrap();
    let before = db.export_interchange_info(InterchangeFormat::Complete);
    let before_bound = db.lower_bound(&pk);
    for slot in 0..=10 {
        db.check_and_insert_block(&pk, Slot::new(slot), Some(root(slot))).unwrap_err();
    }
    for target in 0..=6 {
        db.check_and_insert_attestation(&pk, Epoch::new(0), Epoch::new(target), None)
            .unwrap_err();
    }
    db.check_and_insert_attestation(&pk, Epoch::new(4), Epoch::new(7), None).unwrap_err();
    db.check_and_insert_block(&pubkey(1), Slot::new(11), None).unwrap_err();
    assert!(before.equiv(&db.export_interchange_info(InterchangeFormat::Complete)));
    assert_eq!(before_bound, db.lower_bound(&pk));
}

#[test]
fn bounds_only_rise() {
    let mut db = SlashingDatabase::new(InterchangeFormat::Complete);
    let pk = pubkey(0);
    db.register_validator(pk);
    let mut last = db.lower_bound(&pk).unwrap();
    let at_least = |a: Option<u64>, b: Option<u64>| match (a, b) {
        (None, _) => true,
        (Some(_), None) => false,
        (Some(x), Some(y)) => x <= y,
    };
    let steps: Vec<(u64, u64, u64)> =
        vec![(3, 0, 1), (2, 0, 1), (7, 1, 2), (7, 0, 5), (9, 2, 2), (8, 2, 3), (20, 3, 10)];
    for (slot, source, target) in steps {
        let _ = db.check_and_insert_block(&pk, Slot::new(slot), None);
        let _ = db.check_and_insert_attestation(&pk, Epoch::new(source), Epoch::new(target), None);
        db.register_validator(pubkey(slot as usize));
        let now = db.lower_bound(&pk).unwrap();
        assert!(at_least(
            last.block_proposal_slot.map(|s| s.as_u64()),
            now.block_proposal_slot.map(|s| s.as_u64())
        ));
        assert!(at_least(
            last.attestation_source_epoch.map(|e| e.as_u64()),
            now.attestation_source_epoch.map(|e| e.as_u64())
        ));
        assert!(at_least(
            last.attestation_target_epoch.map(|e| e.as_u64()),
            now.attestation_target_epoch.map(|e| e.as_u64())
        ));
        assert!(now.consistent());
        last = now;
    }
    assert_eq!(last, bound(Some(20), Some(3), Some(10)));
}

#[test]
fn nothing_is_valid_twice_or_around_something_valid() {
    for mode in [InterchangeFormat::Minimal, InterchangeFormat::Complete] {
        let mut db = SlashingDatabase::new(mode);
        let pk = pubkey(0);
        db.register_validator(pk);
        let mut valid_slots: Vec<u64> = vec![];
        let mut valid_votes: Vec<(u64, u64)> = vec![];
        for round in 0..3u64 {
            for slot in [5u64, 3, 5, 8, 8, 1, 13] {
                if db.check_and_insert_block(&pk, Slot::new(slot), Some(root(round))) == Ok(Safe::Valid)
                {
                    assert!(!valid_slots.contains(&slot));
                    valid_slots.push(slot);
                }
            }
            for (s, t) in [(1u64, 5u64), (0, 6), (2, 4), (1, 5), (5, 6), (3, 9), (6, 8), (9, 9)] {
                let verdict = db.check_and_insert_attestation(
                    &pk,
                    Epoch::new(s),
                    Epoch::new(t),
                    Some(root(round)),
                );
                if verdict.is_ok() {
                    for (s0, t0) in valid_votes.iter() {
                        assert_ne!(*t0, t);
                        assert!(!(*s0 < s && t < *t0));
                        assert!(!(s < *s0 && *t0 < t));
                    }
                    valid_votes.push((s, t));
                }
            }
        }
        assert_eq!(valid_slots, vec![5, 8, 13]);
        assert_eq!(valid_votes, vec![(1, 5), (5, 6), (6, 8), (9, 9)]);
    }
}

#[test]
fn import_refuses_other_versions() {
    let mut db = SlashingDatabase::new(InterchangeFormat::Minimal);
    let genesis = root(1);
    let mut doc = minimal_doc(genesis, vec![]);
    doc.metadata.interchange_format_version = 4;
    assert_eq!(db.import_interchange_info(&doc, genesis), Err(ImportError::UnsupportedVersion));
    doc.metadata.interchange_format_version = 6;
    assert_eq!(db.import_interchange_info(&doc, genesis), Err(ImportError::UnsupportedVersion));
    // The version is looked at first.
    assert_eq!(db.import_interchange_info(&doc, root(2)), Err(ImportError::UnsupportedVersion));
    assert_eq!(db.genesis_validators_root(), None);
}

#[test]
fn minimal_import_takes_the_maximum() {
    let genesis = root(1);
    let rec = |slot: Option<u64>, source: Option<u64>, target: Option<u64>| MinimalInterchangeData {
        pubkey: pubkey(0),
        last_signed_block_slot: slot.map(Slot::new),
        last_signed_attestation_source_epoch: source.map(Epoch::new),
        last_signed_attestation_target_epoch: target.map(Epoch::new),
    };
    let mut db = SlashingDatabase::new(InterchangeFormat::Minimal);
    db.import_interchange_info(&minimal_doc(genesis, vec![rec(Some(10), Some(4), Some(6))]), genesis)
        .unwrap();
    db.import_interchange_info(&minimal_doc(genesis, vec![rec(Some(7), Some(5), Some(5))]), genesis)
        .unwrap();
    assert_eq!(db.lower_bound(&pubkey(0)), Some(bound(Some(10), Some(5), Some(6))));
    db.import_interchange_info(&minimal_doc(genesis, vec![rec(None, None, Some(9))]), genesis)
        .unwrap();
    assert_eq!(db.lower_bound(&pubkey(0)), Some(bound(Some(10), Some(5), Some(9))));
    // Two records for one validator in one document collapse too.
    let mut other = SlashingDatabase::new(InterchangeFormat::Minimal);
    other
        .import_interchange_info(
            &minimal_doc(genesis, vec![rec(Some(1), None, None), rec(Some(3), Some(0), Some(2))]),
            genesis,
        )
        .unwrap();
    assert_eq!(other.validators().len(), 1);
    assert_eq!(other.lower_bound(&pubkey(0)), Some(bound(Some(3), Some(0), Some(2))));
}

#[test]
fn import_conflict_leaves_the_store_alone() {
    let genesis = root(1);
    let good = MinimalInterchangeData {
        pubkey: pubkey(0),
        last_signed_block_slot: Some(Slot::new(2)),
        last_signed_attestation_source_epoch: None,
        last_signed_attestation_target_epoch: None,
    };
    let bad = MinimalInterchangeData {
        pubkey: pubkey(1),
        last_signed_block_slot: None,
        last_signed_attestation_source_epoch: Some(Epoch::new(9)),
        last_signed_attestation_target_epoch: Some(Epoch::new(3)),
    };
    let mut db = SlashingDatabase::new(InterchangeFormat::Minimal);
    assert_eq!(
        db.import_interchange_info(&minimal_doc(genesis, vec![good, bad, good]), genesis),
        Err(ImportError::InterchangeConflict { pubkey: pubkey(1) })
    );
    assert!(db.validators().is_empty());
    assert_eq!(db.genesis_validators_root(), None);
}

fn complete_record(i: usize, blocks: Vec<SignedBlock>, atts: Vec<SignedAttestation>) -> CompleteInterchangeData {
    CompleteInterchangeData { pubkey: pubkey(i), signed_blocks: blocks, signed_attestations: atts }
}

#[test]
fn complete_import_fills_the_history() {
    let genesis = root(1);
    let rec = complete_record(
        0,
        vec![block(5, Some(1)), block(9, None), block(7, Some(3))],
        vec![attestation(2, 3, None), attestation(3, 8, Some(4)), attestation(3, 5, None)],
    );
    assert_eq!(implied_bound(&rec), bound(Some(9), Some(3), Some(8)));
    assert_eq!(implied_bound(&complete_record(0, vec![], vec![])), LowerBound::default());
    let doc = complete_doc(genesis, vec![rec.clone()]);
    let mut db = SlashingDatabase::new(InterchangeFormat::Complete);
    assert_eq!(db.import_interchange_info(&doc, genesis), Ok(()));
    assert_eq!(db.genesis_validators_root(), Some(genesis));
    assert_eq!(db.validators()[0].signed_blocks, rec.signed_blocks);
    assert_eq!(db.validators()[0].signed_attestations, rec.signed_attestations);
    assert_eq!(db.lower_bound(&pubkey(0)), Some(bound(Some(9), Some(3), Some(8))));
    assert!(db.export_interchange_info(InterchangeFormat::Complete).equiv(&doc));
    // A second import changes nothing.
    assert_eq!(db.import_interchange_info(&doc, genesis), Ok(()));
    assert!(db.export_interchange_info(InterchangeFormat::Complete).equiv(&doc));
    assert_eq!(db.validators()[0].signed_blocks.len(), 3);
    // A store in minimal mode takes the bound and keeps no history.
    let mut minimal = SlashingDatabase::new(InterchangeFormat::Minimal);
    assert_eq!(minimal.import_interchange_info(&doc, genesis), Ok(()));
    assert!(minimal.validators()[0].signed_blocks.is_empty());
    assert_eq!(minimal.lower_bound(&pubkey(0)), Some(bound(Some(9), Some(3), Some(8))));
}

#[test]
fn complete_import_refuses_what_contradicts() {
    let genesis = root(1);
    let conflict = Err(ImportError::InterchangeConflict { pubkey: pubkey(0) });
    let import = |db: &mut SlashingDatabase, blocks: Vec<SignedBlock>, atts: Vec<SignedAttestation>| {
        db.import_interchange_info(&complete_doc(genesis, vec![complete_record(0, blocks, atts)]), genesis)
    };
    let fresh = || SlashingDatabase::new(InterchangeFormat::Complete);
    // Two blocks at one slot under different roots.
    assert_eq!(import(&mut fresh(), vec![block(5, Some(1)), block(5, Some(2))], vec![]), conflict);
    // The same block twice is one block.
    let mut db = fresh();
    assert_eq!(import(&mut db, vec![block(5, Some(1)), block(5, Some(1))], vec![]), Ok(()));
    assert_eq!(db.validators()[0].signed_blocks, vec![block(5, Some(1))]);
    // What lies at or below the bound of before the import and is not on record.
    assert_eq!(import(&mut db, vec![block(4, None)], vec![]), conflict);
    assert_eq!(import(&mut db, vec![block(5, Some(2))], vec![]), conflict);
    assert_eq!(import(&mut db, vec![block(6, None), block(5, Some(1))], vec![]), Ok(()));
    assert_eq!(db.validators()[0].signed_blocks, vec![block(5, Some(1)), block(6, None)]);
    // Attestations that surround one another, or share a target.
    assert_eq!(import(&mut fresh(), vec![], vec![attestation(2, 5, None), attestation(1, 6, None)]), conflict);
    assert_eq!(import(&mut fresh(), vec![], vec![attestation(1, 6, None), attestation(2, 5, None)]), conflict);
    assert_eq!(
        import(&mut fresh(), vec![], vec![attestation(1, 6, Some(1)), attestation(2, 6, Some(2))]),
        conflict
    );
    assert_eq!(import(&mut fresh(), vec![], vec![attestation(7, 6, None)]), conflict);
    let mut db = fresh();
    assert_eq!(import(&mut db, vec![], vec![attestation(4, 6, None)]), Ok(()));
    assert_eq!(import(&mut db, vec![], vec![attestation(4, 6, None), attestation(3, 7, None)]), conflict);
    assert_eq!(import(&mut db, vec![], vec![attestation(5, 6, None)]), conflict);
    assert_eq!(db.validators()[0].signed_attestations, vec![attestation(4, 6, None)]);
    assert_eq!(db.lower_bound(&pubkey(0)), Some(bound(None, Some(4), Some(6))));
}

#[test]
fn export_lists_validators_in_order() {
    let mut db = SlashingDatabase::new(InterchangeFormat::Complete);
    db.register_validator(pubkey(2));
    db.register_validator(pubkey(0));
    db.check_and_insert_block(&pubkey(0), Slot::new(3), Some(root(3))).unwrap();
    db.check_and_insert_attestation(&pubkey(2), Epoch::new(1), Epoch::new(2), None).unwrap();
    match db.export_interchange_info(InterchangeFormat::Minimal).data {
        InterchangeData::Minimal(records) => {
            assert_eq!(records.len(), 2);
            assert_eq!(records[0].pubkey, pubkey(2));
            assert_eq!(records[0].last_signed_block_slot, None);
            assert_eq!(records[0].last_signed_attestation_source_epoch, Some(Epoch::new(1)));
            assert_eq!(records[0].last_signed_attestation_target_epoch, Some(Epoch::new(2)));
            assert_eq!(records[1].pubkey, pubkey(0));
            assert_eq!(records[1].last_signed_block_slot, Some(Slot::new(3)));
        }
        InterchangeData::Complete(_) => panic!("asked for the minimal form"),
    }
    match db.export_interchange_info(InterchangeFormat::Complete).data {
        InterchangeData::Complete(records) => {
            assert_eq!(records.len(), 2);
            assert_eq!(records[0].signed_attestations, vec![attestation(1, 2, None)]);
            assert!(records[0].signed_blocks.is_empty());
            assert_eq!(records[1].signed_blocks, vec![block(3, Some(3))]);
        }
        InterchangeData::Minimal(_) => panic!("asked for the complete form"),
    }
}

#[test]
fn import_then_export_round_trip() {
    let genesis = root(0x42);
    let minimal = minimal_doc(
        genesis,
        (0..5)
            .map(|i| MinimalInterchangeData {
                pubkey: pubkey(i),
                last_signed_block_slot: if i % 2 == 0 { Some(Slot::new(i as u64)) } else { None },
                last_signed_attestation_source_epoch: Some(Epoch::new(i as u64)),
                last_signed_attestation_target_epoch: Some(Epoch::new(2 * i as u64)),
            })
            .collect(),
    );
    for mode in [InterchangeFormat::Minimal, InterchangeFormat::Complete] {
        let mut db = SlashingDatabase::new(mode);
        db.import_interchange_info(&minimal, genesis).unwrap();
        assert!(minimal.equiv(&db.export_interchange_info(InterchangeFormat::Minimal)));
    }
    let complete = complete_doc(genesis, vec![
        complete_record(1, vec![block(2, None), block(1, Some(1))], vec![attestation(0, 1, None)]),
        complete_record(0, vec![], vec![attestation(3, 4, Some(2)), attestation(1, 2, None)]),
    ]);
    let mut db = SlashingDatabase::new(InterchangeFormat::Complete);
    db.import_interchange_info(&complete, genesis).unwrap();
    assert!(complete.equiv(&db.export_interchange_info(InterchangeFormat::Complete)));
}

#[test]
fn rows_give_bounds() {
    let row = Row { columns: vec![ColumnValue::Integer(7), ColumnValue::Null, ColumnValue::Integer(0)] };
    assert_eq!(row.get(0), Ok(Some(7)));
    assert_eq!(row.get(1), Ok(None));
    assert_eq!(row.get(3), Err(RowError::InvalidColumnIndex(3)));
    assert_eq!(LowerBound::from_row(&row), Ok(bound(Some(7), None, Some(0))));
    let long = Row {
        columns: vec![ColumnValue::Null, ColumnValue::Null, ColumnValue::Null, ColumnValue::Other],
    };
    assert_eq!(LowerBound::from_row(&long), Ok(LowerBound::default()));
    let short = Row { columns: vec![ColumnValue::Integer(1), ColumnValue::Integer(2)] };
    assert_eq!(LowerBound::from_row(&short), Err(RowError::InvalidColumnIndex(2)));
    let negative = Row {
        columns: vec![ColumnValue::Integer(1), ColumnValue::Integer(-2), ColumnValue::Other],
    };
    assert_eq!(LowerBound::from_row(&negative), Err(RowError::OutOfRange(1, -2)));
    let text = Row { columns: vec![ColumnValue::Other, ColumnValue::Integer(-2), ColumnValue::Null] };
    assert_eq!(LowerBound::from_row(&text), Err(RowError::InvalidColumnType(0)));
    let max = Row {
        columns: vec![ColumnValue::Integer(i64::MAX), ColumnValue::Null, ColumnValue::Null],
    };
    assert_eq!(LowerBound::from_row(&max), Ok(bound(Some(i64::MAX as u64), None, None)));
}

#[test]
fn verdicts_say_why() {
    assert_eq!(NotSafe::UnregisteredValidator.message(), "validator is not registered");
    assert_eq!(NotSafe::ConsistencyError.message(), "the record of the validator is inconsistent");
    assert_eq!(
        NotSafe::InvalidBlock(InvalidBlock::SlotViolatesLowerBound {
            proposed: Slot::new(10),
            bound: Slot::new(12),
        })
        .message(),
        "block slot 10 is not above the lower bound 12"
    );
    assert_eq!(
        InvalidBlock::DoubleBlockProposal { existing_root: None, proposed_root: None }.message(),
        "another block is on record for this slot"
    );
    assert_eq!(
        NotSafe::InvalidAttestation(InvalidAttestation::TargetViolatesLowerBound {
            proposed: Epoch::new(0),
            bound: Epoch::new(0),
        })
        .message(),
        "attestation target 0 is not above the lower bound 0"
    );
    assert_eq!(
        InvalidAttestation::SourceExceedsTarget.message(),
        "attestation source is above its target"
    );
    assert_eq!(
        InvalidAttestation::SourceViolatesLowerBound.message(),
        "attestation source is below the lower bound"
    );
    assert_eq!(
        InvalidAttestation::NewSurroundsPrev {
            prev_source: Epoch::new(1),
            prev_target: Epoch::new(18446744073709551615),
        }
        .message(),
        "attestation lies inside the one on record from 1 to 18446744073709551615"
    );
    assert_eq!(
        InvalidAttestation::PrevSurroundsNew { prev_source: Epoch::new(3), prev_target: Epoch::new(4) }
            .message(),
        "attestation lies around the one on record from 3 to 4"
    );
    assert_eq!(
        InvalidAttestation::DoubleVote { existing_root: None, proposed_root: None }.message(),
        "another attestation is on record for this target"
    );
}
