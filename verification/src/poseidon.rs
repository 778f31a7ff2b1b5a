//! The hash permutation gadget at the bottom of every Merkle layer and of
//! the identity wiring: Poseidon over the Pallas base field, specialised to
//! two-element messages.
//!
//! The permutation itself is assumed correct and collision-resistant; the
//! crate only relies on it being a fixed function of its two inputs, named
//! [`poseidon_of`] so that contracts further up can speak of the digest
//! exactly.

use vstd::prelude::*;

use crate::field::Felt;

use halo2_gadgets::poseidon::primitives::{ConstantLength, P128Pow5T3};
use halo2_proofs::pasta::group::ff::PrimeField;
use halo2_proofs::pasta::Fp;

verus! {

/// The digest of a two-element message under the Poseidon instance
/// `P128Pow5T3` (width 3, rate 2) over the Pallas base field. The round
/// constants are fixed at compile time, so the digest depends on the two
/// message words alone.
pub uninterp spec fn poseidon_of(x: nat, y: nat) -> nat;

/// Hashes an ordered pair of field elements.
///
/// Relies on `halo2_poseidon::Hash::hash` with the `P128Pow5T3`
/// specification and `ConstantLength<2>` domain: a deterministic function
/// of the two message words, returned as a reduced field element.
#[verifier::external_body]
pub(crate) fn hash_pair(a: &Felt, b: &Felt) -> (r: Felt)
    requires
        a.inv(),
        b.inv(),
    ensures
        r.inv(),
        r@ == poseidon_of(a@, b@),
{
    let x = Fp::from_raw([a.l0, a.l1, a.l2, a.l3]);
    let y = Fp::from_raw([b.l0, b.l1, b.l2, b.l3]);
    let d = halo2_gadgets::poseidon::primitives::Hash::<Fp, P128Pow5T3, ConstantLength<2>, 3, 2>::init()
        .hash([x, y]);
    let s = d.to_repr();
    Felt {
        l0: u64::from_le_bytes(s[0..8].try_into().unwrap()),
        l1: u64::from_le_bytes(s[8..16].try_into().unwrap()),
        l2: u64::from_le_bytes(s[16..24].try_into().unwrap()),
        l3: u64::from_le_bytes(s[24..32].try_into().unwrap()),
    }
}

} // verus!
