//! The per-validator lower bound: the maxima of everything a validator has
//! been permitted to sign.

use crate::types::{Epoch, Slot};
use vstd::prelude::*;

verus! {

/// The larger of two optional slots, an absent slot being below every present one.
pub open spec fn max_slot(a: Option<Slot>, b: Option<Slot>) -> Option<Slot> {
    match (a, b) {
        (None, _) => b,
        (_, None) => a,
        (Some(x), Some(y)) => if x.0 >= y.0 {
            a
        } else {
            b
        },
    }
}

/// The larger of two optional epochs, an absent epoch being below every present one.
pub open spec fn max_epoch(a: Option<Epoch>, b: Option<Epoch>) -> Option<Epoch> {
    match (a, b) {
        (None, _) => b,
        (_, None) => a,
        (Some(x), Some(y)) => if x.0 >= y.0 {
            a
        } else {
            b
        },
    }
}

/// `a` is at most `b`, an absent slot being below every present one.
pub open spec fn slot_le(a: Option<Slot>, b: Option<Slot>) -> bool {
    match (a, b) {
        (None, _) => true,
        (Some(_), None) => false,
        (Some(x), Some(y)) => x.0 <= y.0,
    }
}

/// `a` is at most `b`, an absent epoch being below every present one.
pub open spec fn epoch_le(a: Option<Epoch>, b: Option<Epoch>) -> bool {
    match (a, b) {
        (None, _) => true,
        (Some(_), None) => false,
        (Some(x), Some(y)) => x.0 <= y.0,
    }
}

/// What one column of a stored row holds.
#[derive(Clone, Copy, Debug, PartialEq, Eq, Structural)]
pub enum ColumnValue {
    Null,
    Integer(i64),
    /// Text, bytes or a real number.
    Other,
}

/// A row as it comes out of the store: its columns, in order.
#[derive(Clone, Debug)]
pub struct Row {
    pub columns: Vec<ColumnValue>,
}

/// Why a column could not be read as an optional unsigned number.
#[derive(Clone, Copy, Debug, PartialEq, Eq, Structural)]
pub enum RowError {
    /// The row has no column at this position.
    InvalidColumnIndex(usize),
    /// The column at this position holds neither an integer nor nothing.
    InvalidColumnType(usize),
    /// The integer in the column at this position is negative.
    OutOfRange(usize, i64),
}

/// What the column at position `idx` holds as an optional unsigned number.
pub open spec fn column(columns: Seq<ColumnValue>, idx: usize) -> Result<Option<u64>, RowError> {
    if idx >= columns.len() {
        Err(RowError::InvalidColumnIndex(idx))
    } else {
        match columns[idx as int] {
            ColumnValue::Null => Ok(None),
            ColumnValue::Integer(i) => if i < 0 {
                Err(RowError::OutOfRange(idx, i))
            } else {
                Ok(Some(i as u64))
            },
            ColumnValue::Other => Err(RowError::InvalidColumnType(idx)),
        }
    }
}

/// The lower bound that the first three columns of a row hold, or the
/// error of the first of them that cannot be read.
pub open spec fn bound_of_row(columns: Seq<ColumnValue>) -> Result<LowerBound, RowError> {
    match column(columns, 0) {
        Err(e) => Err(e),
        Ok(slot) => match column(columns, 1) {
            Err(e) => Err(e),
            Ok(source) => match column(columns, 2) {
                Err(e) => Err(e),
                Ok(target) => Ok(
                    LowerBound {
                        block_proposal_slot: match slot {
                            Some(v) => Some(Slot(v)),
                            None => None,
                        },
                        attestation_source_epoch: match source {
                            Some(v) => Some(Epoch(v)),
                            None => None,
                        },
                        attestation_target_epoch: match target {
                            Some(v) => Some(Epoch(v)),
                            None => None,
                        },
                    },
                ),
            },
        },
    }
}

impl Row {
    /// Reads the column at position `idx` as an optional unsigned number.
    pub fn get(&self, idx: usize) -> (value: Result<Option<u64>, RowError>)
        ensures
            value == column(self.columns@, idx),
    {
        if idx >= self.columns.len() {
            return Err(RowError::InvalidColumnIndex(idx));
        }
        match self.columns[idx] {
            ColumnValue::Null => Ok(None),
            ColumnValue::Integer(i) => if i < 0 {
                Err(RowError::OutOfRange(idx, i))
            } else {
                Ok(Some(i as u64))
            },
            ColumnValue::Other => Err(RowError::InvalidColumnType(idx)),
        }
    }
}

/// What a validator has signed so far, as three optional maxima. An absent
/// field means that nothing of that kind is on record.
#[derive(Clone, Copy, Debug, PartialEq, Eq, Structural)]
pub struct LowerBound {
    pub block_proposal_slot: Option<Slot>,
    pub attestation_source_epoch: Option<Epoch>,
    pub attestation_target_epoch: Option<Epoch>,
}

impl Default for LowerBound {
    fn default() -> (lb: LowerBound)
        ensures
            lb == LowerBound::empty(),
    {
        LowerBound {
            block_proposal_slot: None,
            attestation_source_epoch: None,
            attestation_target_epoch: None,
        }
    }
}

fn larger_slot(a: Option<Slot>, b: Option<Slot>) -> (m: Option<Slot>)
    ensures
        m == max_slot(a, b),
{
    match (a, b) {
        (None, _) => b,
        (_, None) => a,
        (Some(x), Some(y)) => if x.0 >= y.0 {
            a
        } else {
            b
        },
    }
}

fn larger_epoch(a: Option<Epoch>, b: Option<Epoch>) -> (m: Option<Epoch>)
    ensures
        m == max_epoch(a, b),
{
    match (a, b) {
        (None, _) => b,
        (_, None) => a,
        (Some(x), Some(y)) => if x.0 >= y.0 {
            a
        } else {
            b
        },
    }
}

impl LowerBound {
    /// The bound of a validator that has signed nothing.
    pub open spec fn empty() -> LowerBound {
        LowerBound {
            block_proposal_slot: None,
            attestation_source_epoch: None,
            attestation_target_epoch: None,
        }
    }

    /// The pointwise maximum of two bounds.
    pub open spec fn join(self, other: LowerBound) -> LowerBound {
        LowerBound {
            block_proposal_slot: max_slot(self.block_proposal_slot, other.block_proposal_slot),
            attestation_source_epoch: max_epoch(
                self.attestation_source_epoch,
                other.attestation_source_epoch,
            ),
            attestation_target_epoch: max_epoch(
                self.attestation_target_epoch,
                other.attestation_target_epoch,
            ),
        }
    }

    /// `self` is pointwise at most `other`.
    pub open spec fn le(self, other: LowerBound) -> bool {
        &&& slot_le(self.block_proposal_slot, other.block_proposal_slot)
        &&& epoch_le(self.attestation_source_epoch, other.attestation_source_epoch)
        &&& epoch_le(self.attestation_target_epoch, other.attestation_target_epoch)
    }

    /// Where both attestation epochs are on record, the source does not
    /// exceed the target.
    pub open spec fn is_consistent(self) -> bool {
        match (self.attestation_source_epoch, self.attestation_target_epoch) {
            (Some(source), Some(target)) => source.0 <= target.0,
            _ => true,
        }
    }

    /// Merges two bounds into their pointwise maximum.
    pub fn update(self, other: Self) -> (merged: Self)
        ensures
            merged == self.join(other),
    {
        LowerBound {
            block_proposal_slot: larger_slot(self.block_proposal_slot, other.block_proposal_slot),
            attestation_source_epoch: larger_epoch(
                self.attestation_source_epoch,
                other.attestation_source_epoch,
            ),
            attestation_target_epoch: larger_epoch(
                self.attestation_target_epoch,
                other.attestation_target_epoch,
            ),
        }
    }

    /// Reads a bound from the first three columns of a stored row.
    pub fn from_row(row: &Row) -> (bound: Result<Self, RowError>)
        ensures
            bound == bound_of_row(row.columns@),
    {
        let block_proposal_slot = match row.get(0) {
            Ok(Some(v)) => Some(Slot(v)),
            Ok(None) => None,
            Err(e) => { return Err(e); },
        };
        let attestation_source_epoch = match row.get(1) {
            Ok(Some(v)) => Some(Epoch(v)),
            Ok(None) => None,
            Err(e) => { return Err(e); },
        };
        let attestation_target_epoch = match row.get(2) {
            Ok(Some(v)) => Some(Epoch(v)),
            Ok(None) => None,
            Err(e) => { return Err(e); },
        };
        Ok(Self { block_proposal_slot, attestation_source_epoch, attestation_target_epoch })
    }

    /// Whether the attestation epochs on record are in order.
    pub fn consistent(&self) -> (ok: bool)
        ensures
            ok == self.is_consistent(),
    {
        match (self.attestation_source_epoch, self.attestation_target_epoch) {
            (Some(source), Some(target)) => source.0 <= target.0,
            _ => true,
        }
    }

    /// The join is an upper bound of both operands, and the least one.
    pub proof fn lemma_join_is_least_upper_bound(self, other: LowerBound, above: LowerBound)
        ensures
            self.le(self.join(other)),
            other.le(self.join(other)),
            self.le(above) && other.le(above) ==> self.join(other).le(above),
    {
    }

    /// The join is idempotent, commutative and associative.
    pub proof fn lemma_join_is_semilattice(self, b: LowerBound, c: LowerBound)
        ensures
            self.join(self) == self,
            self.join(b) == b.join(self),
            self.join(b).join(c) == self.join(b.join(c)),
            LowerBound::empty().join(self) == self,
            self.le(b) <==> self.join(b) == b,
    {
    }

    /// The order on bounds is reflexive and transitive.
    pub proof fn lemma_le_is_preorder(self, b: LowerBound, c: LowerBound)
        ensures
            self.le(self),
            self.le(b) && b.le(c) ==> self.le(c),
            self.le(b) && b.le(self) ==> self == b,
    {
    }
}

} // verus!
