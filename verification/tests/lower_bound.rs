use slashing_protection::lower_bound::LowerBound;
use slashing_protection::types::{Epoch, Slot};

#[test]
fn update_nones() {
    let all_none = LowerBound {
        block_proposal_slot: None,
        attestation_source_epoch: None,
        attestation_target_epoch: None,
    };
    assert_eq!(all_none, LowerBound::default());
    let all_some = LowerBound {
        block_proposal_slot: Some(Slot::new(10)),
        attestation_source_epoch: Some(Epoch::new(10)),
        attestation_target_epoch: Some(Epoch::new(10)),
    };
    assert_eq!(all_none.update(all_some), all_some);
    assert_eq!(all_some.update(all_none), all_some);
}

#[test]
fn simple() {
    assert_eq!(
        LowerBound {
            block_proposal_slot: Some(Slot::new(1)),
            attestation_source_epoch: Some(Epoch::new(0)),
            attestation_target_epoch: Some(Epoch::new(100)),
        }
        .update(LowerBound {
            block_proposal_slot: Some(Slot::new(0)),
            attestation_source_epoch: Some(Epoch::new(96)),
            attestation_target_epoch: Some(Epoch::new(98)),
        }),
        LowerBound {
            block_proposal_slot: Some(Slot::new(1)),
            attestation_source_epoch: Some(Epoch::new(96)),
            attestation_target_epoch: Some(Epoch::new(100)),
        }
    );
}
