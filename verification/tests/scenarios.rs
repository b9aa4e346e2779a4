use slashing_protection::interchange::{
    Interchange, InterchangeData, InterchangeFormat, InterchangeMetadata, MinimalInterchangeData,
};
use slashing_protection::test_utils::pubkey;
use slashing_protection::types::{Epoch, Hash256, Slot};
use slashing_protection::{
    ImportError, InvalidAttestation, InvalidBlock, NotSafe, Safe, SlashingDatabase,
    SUPPORTED_INTERCHANGE_FORMAT_VERSION,
};

fn root(n: u64) -> Hash256 {
    Hash256::from_low_u64_be(n)
}

fn both_modes() -> [InterchangeFormat; 2] {
    [InterchangeFormat::Minimal, InterchangeFormat::Complete]
}

fn store(mode: InterchangeFormat) -> SlashingDatabase {
    let mut db = SlashingDatabase::new(mode);
    db.register_validator(pubkey(0));
    db
}

fn minimal_document(genesis: Hash256, data: Vec<MinimalInterchangeData>) -> Interchange {
    Interchange {
        metadata: InterchangeMetadata {
            interchange_format: InterchangeFormat::Minimal,
            interchange_format_version: SUPPORTED_INTERCHANGE_FORMAT_VERSION,
            genesis_validators_root: genesis,
        },
        data: InterchangeData::Minimal(data),
    }
}

fn record_10_1_2() -> MinimalInterchangeData {
    MinimalInterchangeData {
        pubkey: pubkey(0),
        last_signed_block_slot: Some(Slot::new(10)),
        last_signed_attestation_source_epoch: Some(Epoch::new(1)),
        last_signed_attestation_target_epoch: Some(Epoch::new(2)),
    }
}

#[test]
fn simple_block_monotonicity() {
    for mode in both_modes() {
        let mut db = store(mode);
        let pk = pubkey(0);
        assert_eq!(db.check_and_insert_block(&pk, Slot::new(10), Some(root(1))), Ok(Safe::Valid));
        assert_eq!(
            db.check_and_insert_block(&pk, Slot::new(10), Some(root(2))),
            Err(NotSafe::InvalidBlock(InvalidBlock::SlotViolatesLowerBound {
                proposed: Slot::new(10),
                bound: Slot::new(10),
            }))
        );
        // The bound is held against the slot before the history is looked at, so a
        // replay at the bound is turned down in either mode.
        assert_eq!(
            db.check_and_insert_block(&pk, Slot::new(10), Some(root(1))),
            Err(NotSafe::InvalidBlock(InvalidBlock::SlotViolatesLowerBound {
                proposed: Slot::new(10),
                bound: Slot::new(10),
            }))
        );
        assert_eq!(db.check_and_insert_block(&pk, Slot::new(11), Some(root(3))), Ok(Safe::Valid));
        assert_eq!(db.lower_bound(&pk).unwrap().block_proposal_slot, Some(Slot::new(11)));
    }
}

#[test]
fn double_vote() {
    for mode in both_modes() {
        let mut db = store(mode);
        let pk = pubkey(0);
        assert_eq!(
            db.check_and_insert_attestation(&pk, Epoch::new(1), Epoch::new(2), Some(root(0xa))),
            Ok(Safe::Valid)
        );
        assert_eq!(
            db.check_and_insert_attestation(&pk, Epoch::new(1), Epoch::new(2), Some(root(0xb))),
            Err(NotSafe::InvalidAttestation(InvalidAttestation::TargetViolatesLowerBound {
                proposed: Epoch::new(2),
                bound: Epoch::new(2),
            }))
        );
    }
}

#[test]
fn surround() {
    for mode in both_modes() {
        let mut db = store(mode);
        let pk = pubkey(0);
        assert_eq!(
            db.check_and_insert_attestation(&pk, Epoch::new(1), Epoch::new(5), Some(root(0xa))),
            Ok(Safe::Valid)
        );
        assert_eq!(
            db.check_and_insert_attestation(&pk, Epoch::new(0), Epoch::new(6), Some(root(0xb))),
            Err(NotSafe::InvalidAttestation(InvalidAttestation::SourceViolatesLowerBound))
        );
        assert_eq!(
            db.check_and_insert_attestation(&pk, Epoch::new(2), Epoch::new(4), Some(root(0xc))),
            Err(NotSafe::InvalidAttestation(InvalidAttestation::TargetViolatesLowerBound {
                proposed: Epoch::new(4),
                bound: Epoch::new(5),
            }))
        );
    }
}

#[test]
fn minimal_import() {
    for mode in both_modes() {
        let mut db = SlashingDatabase::new(mode);
        let genesis = root(0x42);
        let doc = minimal_document(genesis, vec![record_10_1_2()]);
        assert_eq!(db.import_interchange_info(&doc, genesis), Ok(()));
        let pk = pubkey(0);
        assert!(db.check_and_insert_block(&pk, Slot::new(5), None).is_err());
        assert_eq!(db.check_and_insert_block(&pk, Slot::new(11), None), Ok(Safe::Valid));
        assert_eq!(
            db.check_and_insert_attestation(&pk, Epoch::new(1), Epoch::new(3), None),
            Ok(Safe::Valid)
        );
        assert!(db
            .check_and_insert_attestation(&pk, Epoch::new(0), Epoch::new(4), None)
            .is_err());
    }
}

#[test]
fn genesis_mismatch() {
    for mode in both_modes() {
        let mut db = SlashingDatabase::new(mode);
        let a = root(0xa);
        let b = root(0xb);
        assert_eq!(db.import_interchange_info(&minimal_document(a, vec![]), a), Ok(()));
        assert_eq!(db.genesis_validators_root(), Some(a));
        let before = db.export_interchange_info(InterchangeFormat::Minimal);
        // The document names another chain than the store is bound to.
        assert_eq!(
            db.import_interchange_info(&minimal_document(b, vec![record_10_1_2()]), b),
            Err(ImportError::GenesisRootMismatch)
        );
        // The document names another chain than the caller expects.
        assert_eq!(
            db.import_interchange_info(&minimal_document(b, vec![record_10_1_2()]), a),
            Err(ImportError::GenesisRootMismatch)
        );
        assert!(!db.is_registered(&pubkey(0)));
        assert_eq!(db.genesis_validators_root(), Some(a));
        assert!(before.equiv(&db.export_interchange_info(InterchangeFormat::Minimal)));
    }
}

#[test]
fn idempotent_double_import() {
    for mode in both_modes() {
        let genesis = root(0x42);
        let doc = minimal_document(genesis, vec![record_10_1_2()]);
        let mut once = SlashingDatabase::new(mode);
        assert_eq!(once.import_interchange_info(&doc, genesis), Ok(()));
        let mut twice = SlashingDatabase::new(mode);
        assert_eq!(twice.import_interchange_info(&doc, genesis), Ok(()));
        assert_eq!(twice.import_interchange_info(&doc, genesis), Ok(()));
        for format in both_modes() {
            assert!(once
                .export_interchange_info(format)
                .equiv(&twice.export_interchange_info(format)));
        }
        assert_eq!(once.lower_bound(&pubkey(0)), twice.lower_bound(&pubkey(0)));
    }
}
