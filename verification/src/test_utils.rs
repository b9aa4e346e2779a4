//! Helpers for exercising the store: deterministic validator keys.

use crate::types::{base256_digit, pow256, PublicKey};
use vstd::prelude::*;

verus! {

/// The 48 bytes whose last eight hold `index` in big-endian order, the rest zero.
pub open spec fn pubkey_bytes(index: usize) -> Seq<u8> {
    Seq::new(
        48,
        |i: int|
            if i < 40 {
                0u8
            } else {
                base256_digit(index as u64, (47 - i) as nat)
            },
    )
}

/// A public key that stands for validator number `index`.
pub fn pubkey(index: usize) -> (key: PublicKey)
    ensures
        key@ == pubkey_bytes(index),
{
    let mut bytes = [0u8; 48];
    let mut rest: u64 = index as u64;
    let mut k: usize = 0;
    assert(pow256(0) == 1);
    while k < 8
        invariant
            k <= 8,
            rest as nat == (index as u64) as nat / pow256(k as nat),
            pow256(k as nat) > 0,
            forall|i: int| 0 <= i < 48 - k ==> bytes@[i] == 0u8,
            forall|i: int|
                48 - k <= i < 48 ==> bytes@[i] == base256_digit(index as u64, (47 - i) as nat),
        decreases 8 - k,
    {
        let digit: u8 = (rest % 256) as u8;
        bytes[47 - k] = digit;
        proof {
            let p = pow256(k as nat);
            assert(pow256((k + 1) as nat) == 256 * p);
            vstd::arithmetic::div_mod::lemma_div_denominator((index as u64) as int, p as int, 256);
            assert(p * 256 == 256 * p) by (nonlinear_arith);
        }
        rest = rest / 256;
        k = k + 1;
    }
    let key = PublicKey(bytes);
    assert(key@ =~= pubkey_bytes(index));
    key
}

} // verus!
