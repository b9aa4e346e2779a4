//! The interchange model: a portable description of what validators have
//! signed, in a minimal (maxima only) or complete (full history) form.

use crate::lower_bound::LowerBound;
use crate::types::{Epoch, Hash256, PublicKey, Slot};
use vstd::prelude::*;
use vstd::multiset::Multiset;
use vstd::seq_lib::lemma_multiset_commutative;

verus! {

/// The only interchange format version this library reads and writes.
pub const SUPPORTED_INTERCHANGE_FORMAT_VERSION: u64 = 5;

/// Which of the two record shapes a document holds.
#[derive(Clone, Copy, Debug, PartialEq, Eq, Structural)]
pub enum InterchangeFormat {
    Minimal,
    Complete,
}

#[derive(Clone, Copy, Debug, Eq)]
pub struct InterchangeMetadata {
    pub interchange_format: InterchangeFormat,
    pub interchange_format_version: u64,
    pub genesis_validators_root: Hash256,
}

impl PartialEq for InterchangeMetadata {
    fn eq(&self, other: &Self) -> (r: bool) {
        self.interchange_format == other.interchange_format
            && self.interchange_format_version == other.interchange_format_version
            && self.genesis_validators_root == other.genesis_validators_root
    }
}

impl vstd::std_specs::cmp::PartialEqSpecImpl for InterchangeMetadata {
    open spec fn obeys_eq_spec() -> bool {
        true
    }

    open spec fn eq_spec(&self, other: &Self) -> bool {
        *self == *other
    }
}

/// One validator in the minimal form: its three maxima.
#[derive(Clone, Copy, Debug, Eq, Hash)]
pub struct MinimalInterchangeData {
    pub pubkey: PublicKey,
    pub last_signed_block_slot: Option<Slot>,
    pub last_signed_attestation_source_epoch: Option<Epoch>,
    pub last_signed_attestation_target_epoch: Option<Epoch>,
}

impl PartialEq for MinimalInterchangeData {
    fn eq(&self, other: &Self) -> (r: bool) {
        self.pubkey == other.pubkey && self.last_signed_block_slot == other.last_signed_block_slot
            && self.last_signed_attestation_source_epoch
            == other.last_signed_attestation_source_epoch
            && self.last_signed_attestation_target_epoch
            == other.last_signed_attestation_target_epoch
    }
}

impl vstd::std_specs::cmp::PartialEqSpecImpl for MinimalInterchangeData {
    open spec fn obeys_eq_spec() -> bool {
        true
    }

    open spec fn eq_spec(&self, other: &Self) -> bool {
        *self == *other
    }
}

impl MinimalInterchangeData {
    /// The lower bound that the record states.
    pub open spec fn bound(self) -> LowerBound {
        LowerBound {
            block_proposal_slot: self.last_signed_block_slot,
            attestation_source_epoch: self.last_signed_attestation_source_epoch,
            attestation_target_epoch: self.last_signed_attestation_target_epoch,
        }
    }
}

/// A signed block proposal. An absent root means that the block's hash is unknown.
#[derive(Clone, Copy, Debug, Eq, Hash)]
pub struct SignedBlock {
    pub slot: Slot,
    pub signing_root: Option<Hash256>,
}

impl PartialEq for SignedBlock {
    fn eq(&self, other: &Self) -> (r: bool) {
        self.slot == other.slot && self.signing_root == other.signing_root
    }
}

impl vstd::std_specs::cmp::PartialEqSpecImpl for SignedBlock {
    open spec fn obeys_eq_spec() -> bool {
        true
    }

    open spec fn eq_spec(&self, other: &Self) -> bool {
        *self == *other
    }
}

/// A signed attestation. An absent root means that the attestation's hash is unknown.
#[derive(Clone, Copy, Debug, Eq, Hash)]
pub struct SignedAttestation {
    pub source_epoch: Epoch,
    pub target_epoch: Epoch,
    pub signing_root: Option<Hash256>,
}

impl PartialEq for SignedAttestation {
    fn eq(&self, other: &Self) -> (r: bool) {
        self.source_epoch == other.source_epoch && self.target_epoch == other.target_epoch
            && self.signing_root == other.signing_root
    }
}

impl vstd::std_specs::cmp::PartialEqSpecImpl for SignedAttestation {
    open spec fn obeys_eq_spec() -> bool {
        true
    }

    open spec fn eq_spec(&self, other: &Self) -> bool {
        *self == *other
    }
}

/// One validator in the complete form: every block and attestation it signed.
#[derive(Clone, Debug, Eq, Hash)]
pub struct CompleteInterchangeData {
    pub pubkey: PublicKey,
    pub signed_blocks: Vec<SignedBlock>,
    pub signed_attestations: Vec<SignedAttestation>,
}

/// What a complete record holds, as mathematical sequences.
pub struct CompleteRecord {
    pub pubkey: PublicKey,
    pub signed_blocks: Seq<SignedBlock>,
    pub signed_attestations: Seq<SignedAttestation>,
}

impl View for CompleteInterchangeData {
    type V = CompleteRecord;

    open spec fn view(&self) -> CompleteRecord {
        CompleteRecord {
            pubkey: self.pubkey,
            signed_blocks: self.signed_blocks@,
            signed_attestations: self.signed_attestations@,
        }
    }
}

impl View for MinimalInterchangeData {
    type V = MinimalInterchangeData;

    open spec fn view(&self) -> MinimalInterchangeData {
        *self
    }
}

/// Whether two lists of blocks hold the same entries in the same order.
pub fn same_blocks(a: &Vec<SignedBlock>, b: &Vec<SignedBlock>) -> (r: bool)
    ensures
        r == (a@ == b@),
{
    if a.len() != b.len() {
        return false;
    }
    let mut i: usize = 0;
    while i < a.len()
        invariant
            i <= a.len(),
            a.len() == b.len(),
            forall|j: int| 0 <= j < i ==> a@[j] == b@[j],
        decreases a.len() - i,
    {
        if a[i] != b[i] {
            return false;
        }
        i = i + 1;
    }
    assert(a@ =~= b@);
    true
}

/// Whether two lists of attestations hold the same entries in the same order.
pub fn same_attestations(a: &Vec<SignedAttestation>, b: &Vec<SignedAttestation>) -> (r: bool)
    ensures
        r == (a@ == b@),
{
    if a.len() != b.len() {
        return false;
    }
    let mut i: usize = 0;
    while i < a.len()
        invariant
            i <= a.len(),
            a.len() == b.len(),
            forall|j: int| 0 <= j < i ==> a@[j] == b@[j],
        decreases a.len() - i,
    {
        if a[i] != b[i] {
            return false;
        }
        i = i + 1;
    }
    assert(a@ =~= b@);
    true
}

impl PartialEq for CompleteInterchangeData {
    fn eq(&self, other: &Self) -> (r: bool) {
        self.pubkey == other.pubkey && same_blocks(&self.signed_blocks, &other.signed_blocks)
            && same_attestations(&self.signed_attestations, &other.signed_attestations)
    }
}

impl vstd::std_specs::cmp::PartialEqSpecImpl for CompleteInterchangeData {
    open spec fn obeys_eq_spec() -> bool {
        true
    }

    open spec fn eq_spec(&self, other: &Self) -> bool {
        self@ == other@
    }
}

/// The records of a document: all minimal, or all complete.
#[derive(Clone, Debug)]
pub enum InterchangeData {
    Minimal(Vec<MinimalInterchangeData>),
    Complete(Vec<CompleteInterchangeData>),
}

/// The views of the items of a sequence, in order.
pub open spec fn views<T: View>(items: Seq<T>) -> Seq<T::V> {
    Seq::new(items.len(), |i: int| items[i]@)
}

/// What a document's records hold, as mathematical sequences.
pub enum Records {
    Minimal(Seq<MinimalInterchangeData>),
    Complete(Seq<CompleteRecord>),
}

impl View for InterchangeData {
    type V = Records;

    open spec fn view(&self) -> Records {
        match self {
            InterchangeData::Minimal(m) => Records::Minimal(m@),
            InterchangeData::Complete(c) => Records::Complete(views(c@)),
        }
    }
}

impl Records {
    /// The number of validator records.
    pub open spec fn len(self) -> nat {
        match self {
            Records::Minimal(m) => m.len(),
            Records::Complete(c) => c.len(),
        }
    }

    /// Both hold records of the same form, and the same records when their
    /// order is ignored: each record occurs as often in one as in the other.
    pub open spec fn same_multiset(self, other: Records) -> bool {
        match (self, other) {
            (Records::Minimal(a), Records::Minimal(b)) => a.to_multiset() == b.to_multiset(),
            (Records::Complete(a), Records::Complete(b)) => a.to_multiset() == b.to_multiset(),
            _ => false,
        }
    }
}

/// An interchange document.
#[derive(Clone, Debug)]
pub struct Interchange {
    pub metadata: InterchangeMetadata,
    pub data: InterchangeData,
}

/// What a document holds, as mathematical values.
pub struct Document {
    pub metadata: InterchangeMetadata,
    pub data: Records,
}

impl View for Interchange {
    type V = Document;

    open spec fn view(&self) -> Document {
        Document { metadata: self.metadata, data: self.data@ }
    }
}

impl Document {
    /// The two documents agree on their metadata and hold the same records,
    /// whatever the order of the records.
    pub open spec fn equiv(self, other: Document) -> bool {
        self.metadata == other.metadata && self.data.same_multiset(other.data)
    }
}

/// A record that can be compared with another of its kind.
pub trait Comparable: View + Sized {
    fn same(&self, other: &Self) -> (r: bool)
        ensures
            r == (self@ == other@),
    ;
}

impl Comparable for MinimalInterchangeData {
    fn same(&self, other: &Self) -> (r: bool) {
        self == other
    }
}

impl Comparable for CompleteInterchangeData {
    fn same(&self, other: &Self) -> (r: bool) {
        self == other
    }
}

/// The values found in `items` at the positions listed in `at`.
pub open spec fn picked<V>(items: Seq<V>, at: Seq<usize>) -> Seq<V> {
    Seq::new(at.len(), |k: int| items[at[k] as int])
}

/// Whether `a` and `b` hold the same records when order is ignored.
pub fn same_multiset<T: Comparable>(a: &Vec<T>, b: &Vec<T>) -> (r: bool)
    ensures
        r == (views(a@).to_multiset() == views(b@).to_multiset()),
{
    broadcast use {vstd::seq_lib::group_to_multiset_ensures, vstd::multiset::group_multiset_axioms};

    let ghost av = views(a@);
    let ghost bv = views(b@);
    if a.len() != b.len() {
        proof {
            av.to_multiset_ensures();
            bv.to_multiset_ensures();
        }
        return false;
    }
    let n = a.len();
    // The positions of `b` that no record of `a` has been matched with yet.
    let mut free: Vec<usize> = Vec::new();
    let mut k: usize = 0;
    while k < n
        invariant
            k <= n,
            n == b.len(),
            free@.len() == k,
            forall|j: int| 0 <= j < k ==> free@[j] == j,
        decreases n - k,
    {
        free.push(k);
        k = k + 1;
    }
    assert(picked(bv, free@) =~= bv);
    assert(av.take(0) =~= Seq::<T::V>::empty());
    let mut i: usize = 0;
    while i < n
        invariant
            i <= n,
            n == a.len(),
            n == b.len(),
            av == views(a@),
            bv == views(b@),
            forall|j: int| 0 <= j < free@.len() ==> free@[j] < n,
            bv.to_multiset() == av.take(i as int).to_multiset().add(
                picked(bv, free@).to_multiset(),
            ),
        decreases n - i,
    {
        let mut p: usize = 0;
        let mut found = false;
        while p < free.len()
            invariant_except_break
                !found,
                forall|j: int| 0 <= j < p ==> picked(bv, free@)[j] != av[i as int],
            invariant
                p <= free.len(),
                i < n,
                n == a.len(),
                n == b.len(),
                av == views(a@),
                bv == views(b@),
                forall|j: int| 0 <= j < free@.len() ==> free@[j] < n,
            ensures
                p <= free.len(),
                found ==> p < free.len() && picked(bv, free@)[p as int] == av[i as int],
                !found ==> forall|j: int|
                    0 <= j < free@.len() ==> picked(bv, free@)[j] != av[i as int],
            decreases free.len() - p,
        {
            if a[i].same(&b[free[p]]) {
                found = true;
                break ;
            }
            p = p + 1;
        }
        let ghost rest = picked(bv, free@);
        let ghost done = av.take(i as int);
        proof {
            assert(av.take(i + 1) =~= done.push(av[i as int]));
        }
        if !found {
            proof {
                let x = av[i as int];
                assert(!rest.contains(x));
                rest.to_multiset_ensures();
                assert(rest.to_multiset().count(x) == 0);
                assert(bv.to_multiset().count(x) == done.to_multiset().count(x));
                assert(av =~= av.take(i + 1) + av.skip(i + 1));
                lemma_multiset_commutative(av.take(i + 1), av.skip(i + 1));
                vstd::seq_lib::to_multiset_build(done, x);
                assert(av.take(i + 1).to_multiset().count(x) == done.to_multiset().count(x) + 1);
                assert(av.to_multiset().count(x) >= done.to_multiset().count(x) + 1);
            }
            return false;
        }
        free.remove(p);
        proof {
            let y = rest[p as int];
            assert(picked(bv, free@) =~= rest.remove(p as int));
            vstd::seq_lib::to_multiset_remove(rest, p as int);
            rest.to_multiset_ensures();
            assert(rest.contains(y));
            assert(rest.to_multiset().count(y) > 0);
            assert(rest.to_multiset() =~= rest.remove(p as int).to_multiset().insert(y));
            vstd::seq_lib::to_multiset_build(done, y);
            assert(bv.to_multiset() =~= av.take(i + 1).to_multiset().add(
                picked(bv, free@).to_multiset(),
            ));
        }
        i = i + 1;
    }
    proof {
        assert(av.take(n as int) =~= av);
        let rest = picked(bv, free@);
        assert(bv.to_multiset().len() == av.to_multiset().len() + rest.to_multiset().len());
        assert(rest.len() == 0);
        assert(rest.to_multiset() =~= Multiset::<T::V>::empty());
        assert(bv.to_multiset() =~= av.to_multiset());
    }
    true
}

impl Interchange {
    /// Do these two documents contain the same data, ignoring the order of
    /// the records?
    pub fn equiv(&self, other: &Self) -> (r: bool)
        ensures
            r == self@.equiv(other@),
    {
        match (&self.data, &other.data) {
            (InterchangeData::Minimal(m1), InterchangeData::Minimal(m2)) => {
                assert(views(m1@) =~= m1@);
                assert(views(m2@) =~= m2@);
                self.metadata == other.metadata && same_multiset(m1, m2)
            },
            (InterchangeData::Complete(c1), InterchangeData::Complete(c2)) => {
                self.metadata == other.metadata && same_multiset(c1, c2)
            },
            _ => false,
        }
    }

    /// The number of validator records in the document.
    pub fn len(&self) -> (n: usize)
        ensures
            n == self@.data.len(),
    {
        match &self.data {
            InterchangeData::Minimal(m) => m.len(),
            InterchangeData::Complete(c) => c.len(),
        }
    }
}

} // verus!
