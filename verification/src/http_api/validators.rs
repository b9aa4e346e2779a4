//! What the validator routes answer from the validators and balances of a
//! state.

use crate::eth2::validator_status::{ValidatorData, ValidatorStatus};
use crate::types::{Epoch, PublicKey, Validator};
use vstd::prelude::*;

verus! {

/// Which validator a request means: by its key or by its index.
#[derive(Clone, Copy, Debug)]
pub enum ValidatorId {
    PublicKey(PublicKey),
    Index(u64),
}

/// What is answered for the validator at position `index`.
pub open spec fn data_at(
    validators: Seq<Validator>,
    balances: Seq<u64>,
    index: int,
    epoch: Epoch,
    finalized_epoch: Epoch,
    far_future_epoch: Epoch,
) -> ValidatorData {
    ValidatorData {
        index: index as u64,
        balance: balances[index],
        status: ValidatorStatus::of(
            Some(validators[index]),
            epoch,
            finalized_epoch,
            far_future_epoch,
        ),
        validator: validators[index],
    }
}

/// The smaller of two lengths.
pub open spec fn shorter(a: nat, b: nat) -> nat {
    if a <= b {
        a
    } else {
        b
    }
}

/// The position of the first validator with the given key, looking from
/// position `from` on.
pub open spec fn key_position(validators: Seq<Validator>, pubkey: PublicKey, from: int) -> Option<int>
    decreases validators.len() - from,
{
    if from < 0 || from >= validators.len() {
        None
    } else if validators[from].pubkey == pubkey {
        Some(from)
    } else {
        key_position(validators, pubkey, from + 1)
    }
}

/// The position that a request means, whether or not a validator is there.
pub open spec fn position_meant(validators: Seq<Validator>, id: ValidatorId) -> Option<int> {
    match id {
        ValidatorId::PublicKey(pubkey) => key_position(validators, pubkey, 0),
        ValidatorId::Index(index) => Some(index as int),
    }
}

/// Every validator that has a balance, with its index, balance and status.
pub fn all_validators(
    validators: &Vec<Validator>,
    balances: &Vec<u64>,
    epoch: Epoch,
    finalized_epoch: Epoch,
    far_future_epoch: Epoch,
) -> (data: Vec<ValidatorData>)
    ensures
        data@.len() == shorter(validators@.len(), balances@.len()),
        forall|i: int|
            0 <= i < data@.len() ==> data@[i] == data_at(
                validators@,
                balances@,
                i,
                epoch,
                finalized_epoch,
                far_future_epoch,
            ),
{
    let n = if validators.len() <= balances.len() {
        validators.len()
    } else {
        balances.len()
    };
    let mut data: Vec<ValidatorData> = Vec::new();
    let mut i: usize = 0;
    while i < n
        invariant
            i <= n,
            n == shorter(validators@.len(), balances@.len()),
            data@.len() == i,
            forall|j: int|
                0 <= j < i ==> data@[j] == data_at(
                    validators@,
                    balances@,
                    j,
                    epoch,
                    finalized_epoch,
                    far_future_epoch,
                ),
        decreases n - i,
    {
        data.push(
            ValidatorData {
                index: i as u64,
                balance: balances[i],
                status: ValidatorStatus::from_validator(
                    Some(&validators[i]),
                    epoch,
                    finalized_epoch,
                    far_future_epoch,
                ),
                validator: validators[i],
            },
        );
        i = i + 1;
    }
    data
}

/// The validator that a request means, where the state holds it and its
/// balance.
pub fn one_validator(
    validators: &Vec<Validator>,
    balances: &Vec<u64>,
    id: &ValidatorId,
    epoch: Epoch,
    finalized_epoch: Epoch,
    far_future_epoch: Epoch,
) -> (data: Option<ValidatorData>)
    ensures
        data == (match position_meant(validators@, *id) {
            Some(p) => if p < shorter(validators@.len(), balances@.len()) {
                Some(data_at(validators@, balances@, p, epoch, finalized_epoch, far_future_epoch))
            } else {
                None
            },
            None => None,
        }),
{
    let index: usize = match id {
        ValidatorId::PublicKey(pubkey) => {
            let mut i: usize = 0;
            let mut found: Option<usize> = None;
            while i < validators.len()
                invariant_except_break
                    found is None,
                    key_position(validators@, *pubkey, 0) == key_position(
                        validators@,
                        *pubkey,
                        i as int,
                    ),
                invariant
                    i <= validators.len(),
                ensures
                    match found {
                        Some(p) => p < validators.len() && key_position(validators@, *pubkey, 0)
                            == Some(p as int),
                        None => key_position(validators@, *pubkey, 0) is None,
                    },
                decreases validators.len() - i,
            {
                if validators[i].pubkey == *pubkey {
                    found = Some(i);
                    break ;
                }
                i = i + 1;
            }
            match found {
                Some(p) => p,
                None => { return None; },
            }
        },
        ValidatorId::Index(index) => {
            if *index >= validators.len() as u64 {
                return None;
            }
            *index as usize
        },
    };
    if index >= validators.len() || index >= balances.len() {
        return None;
    }
    Some(
        ValidatorData {
            index: index as u64,
            balance: balances[index],
            status: ValidatorStatus::from_validator(
                Some(&validators[index]),
                epoch,
                finalized_epoch,
                far_future_epoch,
            ),
            validator: validators[index],
        },
    )
}

} // verus!
