//! Where a validator stands in its life on the chain.

use crate::types::{Epoch, Validator};
use vstd::prelude::*;

verus! {

/// The number of epochs between when a validator is eligible for
/// activation and when it usually enters the activation queue.
pub const EPOCHS_BEFORE_FINALITY: u64 = 3;

#[derive(Clone, Copy, Debug, PartialEq, Eq, Structural)]
pub enum ValidatorStatus {
    Unknown,
    WaitingForEligibility,
    WaitingForFinality(Epoch),
    WaitingInQueue,
    StandbyForActive(Epoch),
    Active,
    ActiveAwaitingExit(Epoch),
    Exited(Epoch),
    Withdrawable,
}

/// A validator with its index, balance and status.
#[derive(Clone, Copy, Debug)]
pub struct ValidatorData {
    pub index: u64,
    pub balance: u64,
    pub status: ValidatorStatus,
    pub validator: Validator,
}

/// `n` more than `epoch`, or the highest epoch where that would not fit.
pub open spec fn epoch_plus(epoch: Epoch, n: u64) -> Epoch {
    if epoch.0 + n <= u64::MAX {
        Epoch((epoch.0 + n) as u64)
    } else {
        Epoch(u64::MAX)
    }
}

impl ValidatorStatus {
    /// The status of a validator at `epoch`, given the epoch that was
    /// finalized last and the epoch that stands for "never". The first of
    /// these that holds decides: no validator; withdrawable; exited;
    /// active, with or without an exit ahead; activation set; eligibility
    /// set, finalized or not; nothing set.
    pub open spec fn of(
        validator_opt: Option<Validator>,
        epoch: Epoch,
        finalized_epoch: Epoch,
        far_future_epoch: Epoch,
    ) -> ValidatorStatus {
        match validator_opt {
            None => ValidatorStatus::Unknown,
            Some(v) => if v.withdrawable_at(epoch) {
                ValidatorStatus::Withdrawable
            } else if v.exited_at(epoch) {
                ValidatorStatus::Exited(v.withdrawable_epoch)
            } else if v.active_at(epoch) {
                if v.exit_epoch.0 < far_future_epoch.0 {
                    ValidatorStatus::ActiveAwaitingExit(v.exit_epoch)
                } else {
                    ValidatorStatus::Active
                }
            } else if v.activation_epoch.0 < far_future_epoch.0 {
                ValidatorStatus::StandbyForActive(v.activation_epoch)
            } else if v.activation_eligibility_epoch.0 < far_future_epoch.0 {
                if finalized_epoch.0 < v.activation_eligibility_epoch.0 {
                    ValidatorStatus::WaitingForFinality(
                        epoch_plus(v.activation_eligibility_epoch, EPOCHS_BEFORE_FINALITY),
                    )
                } else {
                    ValidatorStatus::WaitingInQueue
                }
            } else {
                ValidatorStatus::WaitingForEligibility
            },
        }
    }

    pub fn from_validator(
        validator_opt: Option<&Validator>,
        epoch: Epoch,
        finalized_epoch: Epoch,
        far_future_epoch: Epoch,
    ) -> (status: Self)
        ensures
            status == ValidatorStatus::of(
                match validator_opt {
                    Some(v) => Some(*v),
                    None => None,
                },
                epoch,
                finalized_epoch,
                far_future_epoch,
            ),
    {
        if let Some(validator) = validator_opt {
            if validator.is_withdrawable_at(epoch) {
                ValidatorStatus::Withdrawable
            } else if validator.is_exited_at(epoch) {
                ValidatorStatus::Exited(validator.withdrawable_epoch)
            } else if validator.is_active_at(epoch) {
                if validator.exit_epoch.0 < far_future_epoch.0 {
                    ValidatorStatus::ActiveAwaitingExit(validator.exit_epoch)
                } else {
                    ValidatorStatus::Active
                }
            } else {
                if validator.activation_epoch.0 < far_future_epoch.0 {
                    ValidatorStatus::StandbyForActive(validator.activation_epoch)
                } else if validator.activation_eligibility_epoch.0 < far_future_epoch.0 {
                    if finalized_epoch.0 < validator.activation_eligibility_epoch.0 {
                        ValidatorStatus::WaitingForFinality(
                            Epoch(
                                validator.activation_eligibility_epoch.0.saturating_add(
                                    EPOCHS_BEFORE_FINALITY,
                                ),
                            ),
                        )
                    } else {
                        ValidatorStatus::WaitingInQueue
                    }
                } else {
                    ValidatorStatus::WaitingForEligibility
                }
            }
        } else {
            ValidatorStatus::Unknown
        }
    }
}

} // verus!
