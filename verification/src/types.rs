//! Domain types: slots, epochs, 32-byte roots and 48-byte public keys.

use vstd::prelude::*;

verus! {

/// A beacon-chain slot number.
#[derive(Clone, Copy, Debug, PartialEq, Eq, Structural, PartialOrd, Ord, Hash)]
pub struct Slot(pub u64);

impl Slot {
    pub fn new(slot: u64) -> (s: Slot)
        ensures
            s.0 == slot,
    {
        Slot(slot)
    }

    pub fn as_u64(&self) -> (v: u64)
        ensures
            v == self.0,
    {
        self.0
    }
}

/// A beacon-chain epoch number.
#[derive(Clone, Copy, Debug, PartialEq, Eq, Structural, PartialOrd, Ord, Hash)]
pub struct Epoch(pub u64);

impl Epoch {
    pub fn new(epoch: u64) -> (e: Epoch)
        ensures
            e.0 == epoch,
    {
        Epoch(epoch)
    }

    pub fn as_u64(&self) -> (v: u64)
        ensures
            v == self.0,
    {
        self.0
    }
}

/// `256` raised to the power `k`.
pub open spec fn pow256(k: nat) -> nat
    decreases k,
{
    if k == 0 {
        1
    } else {
        256 * pow256((k - 1) as nat)
    }
}

/// Digit `k` of `v` written in base 256, digit 0 being the least significant.
pub open spec fn base256_digit(v: u64, k: nat) -> u8 {
    ((v as nat / pow256(k)) % 256) as u8
}

/// The 32 bytes whose last eight hold `v` in big-endian order, the rest zero.
pub open spec fn low_u64_be_bytes(v: u64) -> Seq<u8> {
    Seq::new(
        32,
        |i: int|
            if i < 24 {
                0u8
            } else {
                base256_digit(v, (31 - i) as nat)
            },
    )
}

/// A 32-byte root: a signing root or a genesis validators root.
#[derive(Clone, Copy, Debug, Eq, Hash)]
pub struct Hash256(pub [u8; 32]);

impl PartialEq for Hash256 {
    fn eq(&self, other: &Self) -> (r: bool) {
        let mut i: usize = 0;
        while i < 32
            invariant
                i <= 32,
                forall|j: int| 0 <= j < i ==> self.0[j] == other.0[j],
            decreases 32 - i,
        {
            if self.0[i] != other.0[i] {
                return false;
            }
            i = i + 1;
        }
        proof {
            assert(self.0 =~= other.0);
        }
        true
    }
}

impl vstd::std_specs::cmp::PartialEqSpecImpl for Hash256 {
    open spec fn obeys_eq_spec() -> bool {
        true
    }

    open spec fn eq_spec(&self, other: &Self) -> bool {
        *self == *other
    }
}

impl View for Hash256 {
    type V = Seq<u8>;

    open spec fn view(&self) -> Seq<u8> {
        self.0@
    }
}

/// The root whose 32 bytes are all zero.
pub open spec fn zero_root() -> Hash256 {
    Hash256(vstd::array::spec_array_fill_for_copy_type::<u8, 32>(0u8))
}

impl Hash256 {
    /// The all-zero root.
    pub fn zero() -> (h: Hash256)
        ensures
            h == zero_root(),
            h@ == Seq::new(32, |i: int| 0u8),
    {
        let h = Hash256([0u8; 32]);
        assert(h@ =~= Seq::new(32, |i: int| 0u8));
        h
    }

    pub fn from_bytes(bytes: [u8; 32]) -> (h: Hash256)
        ensures
            h.0 == bytes,
    {
        Hash256(bytes)
    }

    pub fn as_bytes(&self) -> (bytes: [u8; 32])
        ensures
            bytes == self.0,
    {
        self.0
    }

    /// The root whose low eight bytes hold `v`, big-endian.
    pub fn from_low_u64_be(v: u64) -> (h: Hash256)
        ensures
            h@ == low_u64_be_bytes(v),
    {
        let mut bytes = [0u8; 32];
        let mut rest: u64 = v;
        let mut k: usize = 0;
        assert(pow256(0) == 1);
        while k < 8
            invariant
                k <= 8,
                rest as nat == v as nat / pow256(k as nat),
                pow256(k as nat) > 0,
                forall|i: int| 0 <= i < 32 - k ==> bytes@[i] == 0u8,
                forall|i: int| 32 - k <= i < 32 ==> bytes@[i] == base256_digit(v, (31 - i) as nat),
            decreases 8 - k,
        {
            let digit: u8 = (rest % 256) as u8;
            bytes[31 - k] = digit;
            proof {
                let p = pow256(k as nat);
                assert(pow256((k + 1) as nat) == 256 * p);
                vstd::arithmetic::div_mod::lemma_div_denominator(v as int, p as int, 256);
                assert(p * 256 == 256 * p) by (nonlinear_arith);
            }
            rest = rest / 256;
            k = k + 1;
        }
        let h = Hash256(bytes);
        assert(h@ =~= low_u64_be_bytes(v));
        h
    }
}

/// A compressed BLS public key: 48 bytes that identify a validator.
#[derive(Clone, Copy, Debug, Eq, Hash)]
pub struct PublicKey(pub [u8; 48]);

impl PartialEq for PublicKey {
    fn eq(&self, other: &Self) -> (r: bool) {
        let mut i: usize = 0;
        while i < 48
            invariant
                i <= 48,
                forall|j: int| 0 <= j < i ==> self.0[j] == other.0[j],
            decreases 48 - i,
        {
            if self.0[i] != other.0[i] {
                return false;
            }
            i = i + 1;
        }
        proof {
            assert(self.0 =~= other.0);
        }
        true
    }
}

impl vstd::std_specs::cmp::PartialEqSpecImpl for PublicKey {
    open spec fn obeys_eq_spec() -> bool {
        true
    }

    open spec fn eq_spec(&self, other: &Self) -> bool {
        *self == *other
    }
}

impl View for PublicKey {
    type V = Seq<u8>;

    open spec fn view(&self) -> Seq<u8> {
        self.0@
    }
}

impl PublicKey {
    pub fn from_bytes(bytes: [u8; 48]) -> (pk: PublicKey)
        ensures
            pk.0 == bytes,
    {
        PublicKey(bytes)
    }

    pub fn as_bytes(&self) -> (bytes: [u8; 48])
        ensures
            bytes == self.0,
    {
        self.0
    }
}

/// A checkpoint of the chain: an epoch and the root of the block at its start.
#[derive(Clone, Copy, Debug, Eq, Hash)]
pub struct Checkpoint {
    pub epoch: Epoch,
    pub root: Hash256,
}

impl PartialEq for Checkpoint {
    fn eq(&self, other: &Self) -> (r: bool) {
        self.epoch == other.epoch && self.root == other.root
    }
}

impl vstd::std_specs::cmp::PartialEqSpecImpl for Checkpoint {
    open spec fn obeys_eq_spec() -> bool {
        true
    }

    open spec fn eq_spec(&self, other: &Self) -> bool {
        *self == *other
    }
}

/// A validator as the beacon state records it.
#[derive(Clone, Copy, Debug, Eq)]
pub struct Validator {
    pub pubkey: PublicKey,
    pub withdrawal_credentials: Hash256,
    pub effective_balance: u64,
    pub slashed: bool,
    pub activation_eligibility_epoch: Epoch,
    pub activation_epoch: Epoch,
    pub exit_epoch: Epoch,
    pub withdrawable_epoch: Epoch,
}

impl PartialEq for Validator {
    fn eq(&self, other: &Self) -> (r: bool) {
        self.pubkey == other.pubkey && self.withdrawal_credentials == other.withdrawal_credentials
            && self.effective_balance == other.effective_balance && self.slashed == other.slashed
            && self.activation_eligibility_epoch == other.activation_eligibility_epoch
            && self.activation_epoch == other.activation_epoch && self.exit_epoch
            == other.exit_epoch && self.withdrawable_epoch == other.withdrawable_epoch
    }
}

impl vstd::std_specs::cmp::PartialEqSpecImpl for Validator {
    open spec fn obeys_eq_spec() -> bool {
        true
    }

    open spec fn eq_spec(&self, other: &Self) -> bool {
        *self == *other
    }
}

impl Validator {
    /// The validator is active at `epoch`: activated and not yet exited.
    pub open spec fn active_at(self, epoch: Epoch) -> bool {
        self.activation_epoch.0 <= epoch.0 < self.exit_epoch.0
    }

    /// The validator has exited by `epoch`.
    pub open spec fn exited_at(self, epoch: Epoch) -> bool {
        self.exit_epoch.0 <= epoch.0
    }

    /// The validator can withdraw at `epoch`.
    pub open spec fn withdrawable_at(self, epoch: Epoch) -> bool {
        self.withdrawable_epoch.0 <= epoch.0
    }

    pub fn is_active_at(&self, epoch: Epoch) -> (r: bool)
        ensures
            r == self.active_at(epoch),
    {
        self.activation_epoch.0 <= epoch.0 && epoch.0 < self.exit_epoch.0
    }

    pub fn is_exited_at(&self, epoch: Epoch) -> (r: bool)
        ensures
            r == self.exited_at(epoch),
    {
        self.exit_epoch.0 <= epoch.0
    }

    pub fn is_withdrawable_at(&self, epoch: Epoch) -> (r: bool)
        ensures
            r == self.withdrawable_at(epoch),
    {
        self.withdrawable_epoch.0 <= epoch.0
    }
}

/// The root with the given bytes, where they are 32.
pub open spec fn root_from(bytes: Seq<u8>) -> Hash256 {
    choose|h: Hash256| h@ == bytes
}

/// The public key with the given bytes, where they are 48.
pub open spec fn key_from(bytes: Seq<u8>) -> PublicKey {
    choose|k: PublicKey| k@ == bytes
}

/// A root is the root with its bytes.
pub proof fn lemma_root_from(root: Hash256)
    ensures
        root_from(root@) == root,
{
    let found = root_from(root@);
    assert(found@ == root@);
    assert(found.0 =~= root.0);
}

/// A public key is the key with its bytes.
pub proof fn lemma_key_from(key: PublicKey)
    ensures
        key_from(key@) == key,
{
    let found = key_from(key@);
    assert(found@ == key@);
    assert(found.0 =~= key.0);
}

/// The root with the given 32 bytes.
pub fn root_of_bytes(bytes: &Vec<u8>) -> (root: Hash256)
    requires
        bytes@.len() == 32,
    ensures
        root@ == bytes@,
        root == root_from(bytes@),
{
    let mut array = [0u8; 32];
    let mut i: usize = 0;
    while i < 32
        invariant
            i <= 32,
            bytes@.len() == 32,
            forall|j: int| 0 <= j < i ==> array@[j] == bytes@[j],
        decreases 32 - i,
    {
        array[i] = bytes[i];
        i = i + 1;
    }
    let root = Hash256(array);
    assert(root@ =~= bytes@);
    proof {
        lemma_root_from(root);
    }
    root
}

/// The public key with the given 48 bytes.
pub fn key_of_bytes(bytes: &Vec<u8>) -> (key: PublicKey)
    requires
        bytes@.len() == 48,
    ensures
        key@ == bytes@,
        key == key_from(bytes@),
{
    let mut array = [0u8; 48];
    let mut i: usize = 0;
    while i < 48
        invariant
            i <= 48,
            bytes@.len() == 48,
            forall|j: int| 0 <= j < i ==> array@[j] == bytes@[j],
        decreases 48 - i,
    {
        array[i] = bytes[i];
        i = i + 1;
    }
    let key = PublicKey(array);
    assert(key@ =~= bytes@);
    proof {
        lemma_key_from(key);
    }
    key
}

} // verus!
