//! The Merkle-layer chip: the "verify-boolean, swap, hash" unit applied
//! once per tree layer.
//!
//! Two polynomial gates guard each layer row. The boolean gate
//! `bit * (1 - bit) = 0` forces the position bit into `{0, 1}`; the swap
//! gate `bit * 2 * (b - a) - (l - a) - (b - r) = 0` ties the pair witnessed
//! into the next row to the pair of the current row, swapped exactly when
//! the bit is one. Both are stated here as predicates over their
//! polynomials modulo the field prime, evaluated by verified checkers, and
//! related to the intended swap semantics by the lemmas at the bottom.

use vstd::prelude::*;

use vstd::arithmetic::div_mod::{
    lemma_fundamental_div_mod, lemma_mod_add_multiples_vanish, lemma_mod_multiples_basic,
    lemma_mul_mod_noop_general, lemma_mul_mod_noop_right, lemma_small_mod, lemma_sub_mod_noop,
};

use crate::field::{fp_mul, fp_sub, p, Felt};

verus! {

/// The boolean gate: the polynomial `bit * (1 - bit)` vanishes in the
/// field.
pub open spec fn boolean_gate_ok(bit: int) -> bool {
    (bit * (1 - bit)) % p() == 0
}

/// The swap gate: the polynomial `bit * 2 * (b - a) - (l - a) - (b - r)`
/// vanishes in the field, where `a` and `b` are the current node and the
/// sibling on the active row and `l`, `r` are the pair witnessed into
/// the next row.
pub open spec fn swap_gate_ok(a: int, b: int, bit: int, l: int, r: int) -> bool {
    (bit * 2 * (b - a) - (l - a) - (b - r)) % p() == 0
}

/// The left input of the layer hash: the current node when the position
/// bit is zero, the sibling otherwise.
pub open spec fn swap_left(a: nat, b: nat, bit: nat) -> nat {
    if bit == 0 {
        a
    } else {
        b
    }
}

/// The right input of the layer hash: the counterpart of [`swap_left`].
pub open spec fn swap_right(a: nat, b: nat, bit: nat) -> nat {
    if bit == 0 {
        b
    } else {
        a
    }
}

/// Computes the ordered pair fed into the layer hash from the current
/// node, the sibling and the position bit: the identity ordering for a
/// zero bit, the swapped ordering for any other bit.
pub fn swap_pair(a: &Felt, b: &Felt, bit: &Felt) -> (lr: (Felt, Felt))
    requires
        a.inv(),
        b.inv(),
        bit.inv(),
    ensures
        lr.0.inv(),
        lr.1.inv(),
        lr.0@ == swap_left(a@, b@, bit@),
        lr.1@ == swap_right(a@, b@, bit@),
{
    if bit.is_zero() {
        (*a, *b)
    } else {
        (*b, *a)
    }
}

/// Evaluates the boolean gate on a position bit, as the constraint system
/// does on every layer row. The result is true exactly on the bits a
/// verifier accepts: the two field values 0 and 1. Any other field value
/// makes the boolean polynomial non-zero, hence the circuit
/// unsatisfiable.
pub fn check_boolean_gate(bit: &Felt) -> (ok: bool)
    requires
        bit.inv(),
    ensures
        ok == boolean_gate_ok(bit@ as int),
        ok <==> (bit@ == 0 || bit@ == 1),
{
    let one = Felt::one();
    let one_minus_bit = fp_sub(&one, bit);
    let prod = fp_mul(bit, &one_minus_bit);
    proof {
        lemma_one_minus_zero_iff(bit@);
        lemma_mul_mod_noop_right(bit@ as int, 1 - bit@, p());
    }
    prod.is_zero()
}

/// The value `(1 - bit) % p` is zero exactly when `bit` is one.
proof fn lemma_one_minus_zero_iff(bit: nat)
    requires
        bit < p(),
    ensures
        ((1 - bit) % p() == 0) <==> (bit == 1),
{
    if bit == 1 {
        lemma_small_mod(0, p() as nat);
    } else if bit == 0 {
        lemma_small_mod(1, p() as nat);
    } else {
        let shifted = 1 - bit + p();
        lemma_mod_add_multiples_vanish(1 - bit, p());
        lemma_small_mod(shifted as nat, p() as nat);
        assert((1 - bit) % p() == shifted);
    }
}

/// Evaluates the swap gate on the five cells of a layer row pair, as the
/// constraint system does wherever the swap selector is on.
pub fn check_swap_gate(a: &Felt, b: &Felt, bit: &Felt, l: &Felt, r: &Felt) -> (ok: bool)
    requires
        a.inv(),
        b.inv(),
        bit.inv(),
        l.inv(),
        r.inv(),
    ensures
        ok == swap_gate_ok(a@ as int, b@ as int, bit@ as int, l@ as int, r@ as int),
{
    let two = Felt::from_u64(2);
    let bit_two = fp_mul(bit, &two);
    let b_minus_a = fp_sub(b, a);
    let swap_term = fp_mul(&bit_two, &b_minus_a);
    let l_minus_a = fp_sub(l, a);
    let partial = fp_sub(&swap_term, &l_minus_a);
    let b_minus_r = fp_sub(b, r);
    let value = fp_sub(&partial, &b_minus_r);
    proof {
        let ai = a@ as int;
        let bi = b@ as int;
        let biti = bit@ as int;
        let li = l@ as int;
        let ri = r@ as int;
        lemma_small_mod(bit@, p() as nat);
        lemma_mul_mod_noop_general(biti * 2, bi - ai, p());
        lemma_sub_mod_noop(biti * 2 * (bi - ai), li - ai, p());
        lemma_sub_mod_noop(biti * 2 * (bi - ai) - (li - ai), bi - ri, p());
    }
    value.is_zero()
}

/// One layer's share of the witness: the three cells of the active row (the
/// current node `a`, the sibling `b`, the position bit) and the two cells
/// of the following row (`left`, `right`) that feed the layer hash.
pub struct LayerWitness {
    pub a: Felt,
    pub b: Felt,
    pub bit: Felt,
    pub left: Felt,
    pub right: Felt,
}

impl LayerWitness {
    /// All five cells hold reduced field elements.
    pub open spec fn inv(&self) -> bool {
        self.a.inv() && self.b.inv() && self.bit.inv() && self.left.inv() && self.right.inv()
    }

    /// Both gates of the layer row accept the witness.
    pub open spec fn gates_ok(&self) -> bool {
        boolean_gate_ok(self.bit@ as int) && swap_gate_ok(
            self.a@ as int,
            self.b@ as int,
            self.bit@ as int,
            self.left@ as int,
            self.right@ as int,
        )
    }

    /// Witnesses one layer the way the prover does: the next-row pair is
    /// computed by the swap rule from the active row. For a boolean position
    /// bit the result passes both gates.
    pub fn new(a: &Felt, b: &Felt, bit: &Felt) -> (w: LayerWitness)
        requires
            a.inv(),
            b.inv(),
            bit.inv(),
        ensures
            w.inv(),
            w.a@ == a@ && w.b@ == b@ && w.bit@ == bit@,
            w.left@ == swap_left(a@, b@, bit@),
            w.right@ == swap_right(a@, b@, bit@),
            (bit@ == 0 || bit@ == 1) ==> w.gates_ok(),
    {
        let (left, right) = swap_pair(a, b, bit);
        proof {
            if bit@ == 0 || bit@ == 1 {
                lemma_boolean_gate_complete(bit@);
                lemma_swap_gate_complete(a@, b@, bit@);
            }
        }
        LayerWitness { a: *a, b: *b, bit: *bit, left, right }
    }

    /// Runs both gate checks of the layer row, as the satisfiability
    /// debug check does: true exactly when the constraint system would
    /// accept these five cells.
    pub fn check(&self) -> (ok: bool)
        requires
            self.inv(),
        ensures
            ok == self.gates_ok(),
    {
        let bool_ok = check_boolean_gate(&self.bit);
        let swap_ok = check_swap_gate(&self.a, &self.b, &self.bit, &self.left, &self.right);
        bool_ok && swap_ok
    }
}

/// Completeness of the boolean gate: the two boolean field values pass it.
pub proof fn lemma_boolean_gate_complete(bit: nat)
    requires
        bit == 0 || bit == 1,
    ensures
        boolean_gate_ok(bit as int),
{
    lemma_small_mod(0, p() as nat);
}

/// Completeness of the swap gate: for a boolean position bit, the pair
/// that the swap rule witnesses into the next row satisfies the swap gate.
pub proof fn lemma_swap_gate_complete(a: nat, b: nat, bit: nat)
    requires
        bit == 0 || bit == 1,
    ensures
        swap_gate_ok(
            a as int,
            b as int,
            bit as int,
            swap_left(a, b, bit) as int,
            swap_right(a, b, bit) as int,
        ),
{
    let ai = a as int;
    let bi = b as int;
    if bit == 0 {
        assert(0 * 2 * (bi - ai) - (ai - ai) - (bi - bi) == 0) by (nonlinear_arith);
    } else {
        assert(1 * 2 * (bi - ai) - (bi - ai) - (bi - ai) == 0) by (nonlinear_arith);
    }
    lemma_small_mod(0, p() as nat);
}

/// A doubled value below the prime in magnitude that the field sends to
/// zero is itself zero; the prime is odd, so no cancellation is possible.
proof fn lemma_double_vanishes(d: int)
    requires
        -p() < d < p(),
        (2 * d) % p() == 0,
    ensures
        d == 0,
{
    let x = 2 * d;
    lemma_fundamental_div_mod(x, p());
    let q = x / p();
    assert(x == p() * q);
    assert(q >= 2 ==> p() * q >= 2 * p()) by (nonlinear_arith);
    assert(q <= -2 ==> p() * q <= -2 * p()) by (nonlinear_arith);
    assert(-1 <= q <= 1);
    if q == 1 {
        assert(d * 2 == p());
        lemma_mod_multiples_basic(d, 2);
        assert(p() % 2 == 0);
        assert(false);
    }
    if q == -1 {
        assert((-d) * 2 == p());
        lemma_mod_multiples_basic(-d, 2);
        assert(p() % 2 == 0);
        assert(false);
    }
}

/// Soundness of the swap gate on orderings of the row pair: among the two
/// ways of laying `{a, b}` out into the next row, the swap gate accepts
/// exactly the one selected by the position bit (both coincide when
/// `a == b`).
/// Together with [`lemma_swap_gate_complete`] this pins the witnessed pair
/// to `(a, b)` for bit 0 and `(b, a)` for bit 1, never the other order.
pub proof fn lemma_swap_gate_sound(a: nat, b: nat, bit: nat, l: nat, r: nat)
    requires
        a < p(),
        b < p(),
        bit == 0 || bit == 1,
        (l == a && r == b) || (l == b && r == a),
        swap_gate_ok(a as int, b as int, bit as int, l as int, r as int),
    ensures
        l == swap_left(a, b, bit),
        r == swap_right(a, b, bit),
{
    let ai = a as int;
    let bi = b as int;
    if bit == 0 && l == b && r == a {
        assert(0 * 2 * (bi - ai) - (bi - ai) - (bi - ai) == 2 * (ai - bi)) by (nonlinear_arith);
        lemma_double_vanishes(ai - bi);
    }
    if bit == 1 && l == a && r == b {
        assert(1 * 2 * (bi - ai) - (ai - ai) - (bi - bi) == 2 * (bi - ai)) by (nonlinear_arith);
        lemma_double_vanishes(bi - ai);
    }
}

/// The swap gate never accepts the reversed ordering of two distinct
/// values: witnessing `(b, a)` where the position bit asks for `(a, b)`,
/// or the other way around, makes the circuit unsatisfiable.
pub proof fn lemma_swap_gate_rejects_wrong_order(a: nat, b: nat, bit: nat)
    requires
        a < p(),
        b < p(),
        a != b,
        bit == 0 || bit == 1,
    ensures
        !swap_gate_ok(
            a as int,
            b as int,
            bit as int,
            swap_right(a, b, bit) as int,
            swap_left(a, b, bit) as int,
        ),
{
    if swap_gate_ok(
        a as int,
        b as int,
        bit as int,
        swap_right(a, b, bit) as int,
        swap_left(a, b, bit) as int,
    ) {
        lemma_swap_gate_sound(a, b, bit, swap_right(a, b, bit), swap_left(a, b, bit));
        assert(false);
    }
}

} // verus!
