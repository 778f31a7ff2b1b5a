//! Elements of the prime field that every witnessed and public value of the
//! circuit lives in: the base field of the Pallas curve.
//!
//! A [`Felt`] holds the canonical little-endian limb representation of a
//! field element, so its mathematical value (the view) is a natural number
//! below the modulus. The ring operations are carried out by the field
//! implementation of the proof-system stack through trusted wrappers; their
//! contracts state the result modulo [`p`].

use vstd::prelude::*;

use halo2_proofs::pasta::group::ff::PrimeField;
use halo2_proofs::pasta::Fp;

verus! {

/// The modulus of the field:
/// `p = 0x40000000000000000000000000000000224698fc094cf91b992d30ed00000001`.
pub open spec fn p() -> int {
    0x40000000000000000000000000000000224698fc094cf91b992d30ed00000001int
}

/// The value of four little-endian 64-bit limbs.
pub open spec fn limbs_value(l0: u64, l1: u64, l2: u64, l3: u64) -> nat {
    (l0 + l1 * 0x10000000000000000int + l2 * 0x100000000000000000000000000000000int
        + l3 * 0x1000000000000000000000000000000000000000000000000int) as nat
}

/// A field element, stored as the canonical (fully reduced) little-endian
/// 64-bit limbs of its value.
#[derive(Clone, Copy, Debug)]
pub struct Felt {
    pub(crate) l0: u64,
    pub(crate) l1: u64,
    pub(crate) l2: u64,
    pub(crate) l3: u64,
}

impl View for Felt {
    type V = nat;

    closed spec fn view(&self) -> nat {
        limbs_value(self.l0, self.l1, self.l2, self.l3)
    }
}

impl Felt {
    /// A stored element is well formed when its limbs are the canonical
    /// representation, i.e. the value they encode is below the modulus.
    pub open spec fn inv(&self) -> bool {
        self@ < p()
    }

    /// Embeds a machine integer into the field.
    pub fn from_u64(x: u64) -> (r: Felt)
        ensures
            r@ == x,
            r.inv(),
    {
        Felt { l0: x, l1: 0, l2: 0, l3: 0 }
    }

    /// The additive identity.
    pub fn zero() -> (r: Felt)
        ensures
            r@ == 0,
            r.inv(),
    {
        Felt::from_u64(0)
    }

    /// The multiplicative identity.
    pub fn one() -> (r: Felt)
        ensures
            r@ == 1,
            r.inv(),
    {
        Felt::from_u64(1)
    }

    /// Whether the element is zero; limbs are canonical, so the all-zero
    /// limb pattern is the only representation of zero.
    pub fn is_zero(&self) -> (r: bool)
        ensures
            r == (self@ == 0),
    {
        self.l0 == 0 && self.l1 == 0 && self.l2 == 0 && self.l3 == 0
    }

    /// The little-endian limbs of the element, for callers that hand the
    /// value to the proof system.
    pub fn limbs(&self) -> (r: (u64, u64, u64, u64))
        ensures
            self@ == limbs_value(r.0, r.1, r.2, r.3),
    {
        (self.l0, self.l1, self.l2, self.l3)
    }
}

/// Field subtraction.
///
/// Relies on `Sub for pasta_curves::Fp`: subtraction modulo `p`, returned
/// in canonical form by `to_repr`. The ghost `%` is Euclidean, so the
/// stated remainder is non-negative even when `a@ < b@`.
#[verifier::external_body]
pub(crate) fn fp_sub(a: &Felt, b: &Felt) -> (r: Felt)
    requires
        a.inv(),
        b.inv(),
    ensures
        r.inv(),
        r@ == (a@ - b@) % p(),
{
    let x = Fp::from_raw([a.l0, a.l1, a.l2, a.l3]);
    let y = Fp::from_raw([b.l0, b.l1, b.l2, b.l3]);
    let s = (x - y).to_repr();
    Felt {
        l0: u64::from_le_bytes(s[0..8].try_into().unwrap()),
        l1: u64::from_le_bytes(s[8..16].try_into().unwrap()),
        l2: u64::from_le_bytes(s[16..24].try_into().unwrap()),
        l3: u64::from_le_bytes(s[24..32].try_into().unwrap()),
    }
}

/// Field multiplication.
///
/// Relies on `Mul for pasta_curves::Fp`: Montgomery multiplication modulo
/// `p`, returned in canonical form by `to_repr`. The final clause is the
/// zero-product property: `p` is prime (the base field of the Pallas
/// curve), so a product of reduced elements vanishes exactly when one of
/// the factors does.
#[verifier::external_body]
pub(crate) fn fp_mul(a: &Felt, b: &Felt) -> (r: Felt)
    requires
        a.inv(),
        b.inv(),
    ensures
        r.inv(),
        r@ == ((a@ * b@) as int) % p(),
        (r@ == 0) <==> (a@ == 0 || b@ == 0),
{
    let x = Fp::from_raw([a.l0, a.l1, a.l2, a.l3]);
    let y = Fp::from_raw([b.l0, b.l1, b.l2, b.l3]);
    let s = (x * y).to_repr();
    Felt {
        l0: u64::from_le_bytes(s[0..8].try_into().unwrap()),
        l1: u64::from_le_bytes(s[8..16].try_into().unwrap()),
        l2: u64::from_le_bytes(s[16..24].try_into().unwrap()),
        l3: u64::from_le_bytes(s[24..32].try_into().unwrap()),
    }
}

} // verus!
