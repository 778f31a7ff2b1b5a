//! The Merkle-path evaluator: folds a leaf through [`MERKLE_DEPTH`] layers
//! of "swap, then hash", carrying the running node value from the leaf up
//! to the claimed root.
//!
//! The sibling and position-bit sequences are ordered leaf to root, and the
//! layers are evaluated in exactly that order: each layer's input node is
//! the digest of the previous layer, so the chain admits no reordering and
//! no substitution.

use vstd::prelude::*;

use crate::chip::{swap_left, swap_pair, swap_right, LayerWitness};
use crate::field::Felt;
use crate::poseidon::{hash_pair, poseidon_of};
use crate::MERKLE_DEPTH;

verus! {

/// The node value above one layer: the digest of the current node and the
/// sibling, ordered by the position bit (node first when the bit is zero).
pub open spec fn next_node(node: nat, sibling: nat, bit: nat) -> nat {
    poseidon_of(swap_left(node, sibling, bit), swap_right(node, sibling, bit))
}

/// The root reached from `leaf` by folding the sibling and position-bit
/// sequences through [`next_node`], leaf first.
pub open spec fn root_from_path(leaf: nat, siblings: Seq<nat>, bits: Seq<nat>) -> nat
    recommends
        siblings.len() == bits.len(),
    decreases siblings.len(),
{
    if siblings.len() == 0 {
        leaf
    } else {
        root_from_path(next_node(leaf, siblings[0], bits[0]), siblings.skip(1), bits.skip(1))
    }
}

/// One layer of the path evaluation: swaps the current node and the
/// sibling as the position bit directs and hashes the ordered pair.
pub fn hash_layer(node: &Felt, sibling: &Felt, position_bit: &Felt) -> (r: Felt)
    requires
        node.inv(),
        sibling.inv(),
        position_bit.inv(),
    ensures
        r.inv(),
        r@ == next_node(node@, sibling@, position_bit@),
{
    let (left, right) = swap_pair(node, sibling, position_bit);
    hash_pair(&left, &right)
}

/// A Merkle authentication path: [`MERKLE_DEPTH`] sibling values paired
/// with as many position bits, both ordered leaf to root. The length
/// invariant is established at construction and never rechecked.
pub struct MerklePath {
    path: Vec<Felt>,
    leaf_pos: Vec<Felt>,
}

impl MerklePath {
    /// The sibling values, leaf to root.
    pub closed spec fn siblings(&self) -> Seq<nat> {
        self.path@.map_values(|f: Felt| f@)
    }

    /// The position bits, leaf to root.
    pub closed spec fn position_bits(&self) -> Seq<nat> {
        self.leaf_pos@.map_values(|f: Felt| f@)
    }

    /// Both sequences span exactly the fixed depth and hold reduced field
    /// elements.
    pub closed spec fn inv(&self) -> bool {
        &&& self.path@.len() == MERKLE_DEPTH
        &&& self.leaf_pos@.len() == MERKLE_DEPTH
        &&& forall|i: int| 0 <= i < MERKLE_DEPTH ==> (#[trigger] self.path@[i]).inv()
        &&& forall|i: int| 0 <= i < MERKLE_DEPTH ==> (#[trigger] self.leaf_pos@[i]).inv()
    }

    /// Builds a path from a sibling vector and a position-bit vector,
    /// rejecting any pair whose lengths differ from the fixed depth:
    /// nothing is truncated or padded.
    pub fn new(path: Vec<Felt>, leaf_pos: Vec<Felt>) -> (r: Option<MerklePath>)
        requires
            forall|i: int| 0 <= i < path@.len() ==> (#[trigger] path@[i]).inv(),
            forall|i: int| 0 <= i < leaf_pos@.len() ==> (#[trigger] leaf_pos@[i]).inv(),
        ensures
            r.is_some() <==> (path@.len() == MERKLE_DEPTH && leaf_pos@.len() == MERKLE_DEPTH),
            r matches Some(m) ==> {
                &&& m.inv()
                &&& m.siblings() == path@.map_values(|f: Felt| f@)
                &&& m.position_bits() == leaf_pos@.map_values(|f: Felt| f@)
            },
    {
        if path.len() == MERKLE_DEPTH && leaf_pos.len() == MERKLE_DEPTH {
            Some(MerklePath { path, leaf_pos })
        } else {
            None
        }
    }

    /// Number of layers of the path.
    pub fn depth(&self) -> (r: usize)
        requires
            self.inv(),
        ensures
            r == MERKLE_DEPTH,
    {
        self.path.len()
    }

    /// Folds the leaf through all layers, leaf to root, and returns the
    /// claimed root: the digest chain fixed by the sibling values and the
    /// position bits.
    pub fn calculate_root(&self, leaf: Felt) -> (r: Felt)
        requires
            self.inv(),
            leaf.inv(),
        ensures
            r.inv(),
            r@ == root_from_path(leaf@, self.siblings(), self.position_bits()),
    {
        let mut node = leaf;
        let mut layer: usize = 0;
        proof {
            assert(self.siblings().skip(0) =~= self.siblings());
            assert(self.position_bits().skip(0) =~= self.position_bits());
        }
        while layer < MERKLE_DEPTH
            invariant
                self.inv(),
                node.inv(),
                0 <= layer <= MERKLE_DEPTH,
                root_from_path(node@, self.siblings().skip(layer as int), self.position_bits().skip(layer as int))
                    == root_from_path(leaf@, self.siblings(), self.position_bits()),
            decreases MERKLE_DEPTH - layer,
        {
            let ghost prev_sib = self.siblings().skip(layer as int);
            let ghost prev_bits = self.position_bits().skip(layer as int);
            node = hash_layer(&node, &self.path[layer], &self.leaf_pos[layer]);
            proof {
                assert(prev_sib[0] == self.siblings()[layer as int]);
                assert(prev_bits[0] == self.position_bits()[layer as int]);
                assert(prev_sib.skip(1) =~= self.siblings().skip(layer + 1));
                assert(prev_bits.skip(1) =~= self.position_bits().skip(layer + 1));
            }
            layer = layer + 1;
        }
        proof {
            assert(self.siblings().skip(MERKLE_DEPTH as int).len() == 0);
        }
        node
    }

    /// Lays the whole witness out layer by layer, the way synthesis fills
    /// the constraint system: each layer holds the running node, the
    /// sibling, the bit and the swapped pair, and each layer's node is the
    /// digest of the previous layer's pair.
    pub fn witness(&self, leaf: &Felt) -> (w: PathWitness)
        requires
            self.inv(),
            leaf.inv(),
        ensures
            w.inv(),
            w.leaf@ == leaf@,
            w.siblings() == self.siblings(),
            w.position_bits() == self.position_bits(),
            w.chained(),
            w.honest(),
            w.claimed_root() == root_from_path(leaf@, self.siblings(), self.position_bits()),
    {
        let mut layers: Vec<LayerWitness> = Vec::new();
        let mut node = *leaf;
        let mut layer: usize = 0;
        proof {
            assert(self.siblings().skip(0) =~= self.siblings());
            assert(self.position_bits().skip(0) =~= self.position_bits());
        }
        while layer < MERKLE_DEPTH
            invariant
                self.inv(),
                node.inv(),
                leaf.inv(),
                0 <= layer <= MERKLE_DEPTH,
                layers@.len() == layer,
                forall|k: int| 0 <= k < layer ==> (#[trigger] layers@[k]).inv(),
                forall|k: int| 0 <= k < layer ==> (#[trigger] layers@[k]).b@ == self.siblings()[k],
                forall|k: int|
                    0 <= k < layer ==> (#[trigger] layers@[k]).bit@ == self.position_bits()[k],
                forall|k: int|
                    0 <= k < layer ==> (#[trigger] layers@[k]).left@ == swap_left(
                        layers@[k].a@,
                        layers@[k].b@,
                        layers@[k].bit@,
                    ) && layers@[k].right@ == swap_right(
                        layers@[k].a@,
                        layers@[k].b@,
                        layers@[k].bit@,
                    ),
                layer == 0 ==> node@ == leaf@,
                layer > 0 ==> layers@[0].a@ == leaf@,
                forall|k: int|
                    0 <= k < layer - 1 ==> (#[trigger] layers@[k + 1]).a@ == poseidon_of(
                        layers@[k].left@,
                        layers@[k].right@,
                    ),
                layer > 0 ==> node@ == poseidon_of(
                    layers@[layer - 1].left@,
                    layers@[layer - 1].right@,
                ),
                root_from_path(
                    node@,
                    self.siblings().skip(layer as int),
                    self.position_bits().skip(layer as int),
                ) == root_from_path(leaf@, self.siblings(), self.position_bits()),
            decreases MERKLE_DEPTH - layer,
        {
            let ghost prev_sib = self.siblings().skip(layer as int);
            let ghost prev_bits = self.position_bits().skip(layer as int);
            let entry = LayerWitness::new(&node, &self.path[layer], &self.leaf_pos[layer]);
            node = hash_pair(&entry.left, &entry.right);
            layers.push(entry);
            proof {
                assert(prev_sib[0] == self.siblings()[layer as int]);
                assert(prev_bits[0] == self.position_bits()[layer as int]);
                assert(prev_sib.skip(1) =~= self.siblings().skip(layer + 1));
                assert(prev_bits.skip(1) =~= self.position_bits().skip(layer + 1));
            }
            layer = layer + 1;
        }
        proof {
            assert(self.siblings().skip(MERKLE_DEPTH as int).len() == 0);
        }
        let w = PathWitness { leaf: *leaf, layers };
        proof {
            assert(w.siblings() =~= self.siblings());
            assert(w.position_bits() =~= self.position_bits());
        }
        w
    }
}

/// The complete witness of one path evaluation: the leaf and one
/// [`LayerWitness`] per layer, ordered leaf to root. The claimed root is
/// the digest of the last layer's pair.
pub struct PathWitness {
    pub leaf: Felt,
    pub layers: Vec<LayerWitness>,
}

impl PathWitness {
    /// The leaf and every cell of every layer hold reduced field
    /// elements, and the witness spans exactly the fixed depth.
    pub open spec fn inv(&self) -> bool {
        &&& self.leaf.inv()
        &&& self.layers@.len() == MERKLE_DEPTH
        &&& forall|k: int| 0 <= k < MERKLE_DEPTH ==> (#[trigger] self.layers@[k]).inv()
    }

    /// The sibling values the witness carries, leaf to root.
    pub open spec fn siblings(&self) -> Seq<nat> {
        self.layers@.map_values(|w: LayerWitness| w.b@)
    }

    /// The position bits the witness carries, leaf to root.
    pub open spec fn position_bits(&self) -> Seq<nat> {
        self.layers@.map_values(|w: LayerWitness| w.bit@)
    }

    /// The digest of layer `k`: the hash of the pair witnessed below it.
    pub open spec fn layer_digest(&self, k: int) -> nat {
        poseidon_of(self.layers@[k].left@, self.layers@[k].right@)
    }

    /// The chaining invariant that the copy constraints enforce: layer 0
    /// starts at the leaf, and every later layer's node equals the digest
    /// of the layer below it — no substitution along the way.
    pub open spec fn chained(&self) -> bool {
        &&& self.layers@[0].a@ == self.leaf@
        &&& forall|k: int|
            0 <= k < self.layers@.len() - 1 ==> (#[trigger] self.layers@[k + 1]).a@
                == self.layer_digest(k)
    }

    /// Every layer's pair is the one the swap rule witnesses: the node
    /// and sibling in bit order.
    pub open spec fn honest(&self) -> bool {
        forall|k: int|
            0 <= k < self.layers@.len() ==> (#[trigger] self.layers@[k]).left@ == swap_left(
                self.layers@[k].a@,
                self.layers@[k].b@,
                self.layers@[k].bit@,
            ) && self.layers@[k].right@ == swap_right(
                self.layers@[k].a@,
                self.layers@[k].b@,
                self.layers@[k].bit@,
            )
    }

    /// The root this witness claims: the digest of the topmost layer.
    pub open spec fn claimed_root(&self) -> nat {
        self.layer_digest(MERKLE_DEPTH - 1)
    }

    /// Runs both gate checks of every layer, as the satisfiability debug
    /// check does: true exactly when the constraint system accepts all
    /// boolean and swap gates of the path.
    pub fn check(&self) -> (ok: bool)
        requires
            self.inv(),
        ensures
            ok <==> (forall|k: int| 0 <= k < MERKLE_DEPTH ==> (#[trigger] self.layers@[k]).gates_ok()),
    {
        let mut layer: usize = 0;
        while layer < self.layers.len()
            invariant
                self.inv(),
                0 <= layer <= MERKLE_DEPTH,
                forall|k: int| 0 <= k < layer ==> (#[trigger] self.layers@[k]).gates_ok(),
            decreases self.layers@.len() - layer,
        {
            if !self.layers[layer].check() {
                return false;
            }
            layer = layer + 1;
        }
        true
    }
}

/// The chaining law: any chained witness whose pairs follow the swap rule
/// claims exactly the root that the path evaluation computes — the digest
/// obtained by hashing the ordered pairs layer by layer, starting from the
/// leaf.
pub proof fn lemma_chained_witness_root(w: PathWitness)
    requires
        w.inv(),
        w.chained(),
        w.honest(),
    ensures
        w.claimed_root() == root_from_path(w.leaf@, w.siblings(), w.position_bits()),
{
    lemma_chained_witness_suffix(w, 0);
    assert(w.siblings().skip(0) =~= w.siblings());
    assert(w.position_bits().skip(0) =~= w.position_bits());
}

/// The suffix of the chain starting at layer `k` folds that layer's node
/// up to the claimed root.
proof fn lemma_chained_witness_suffix(w: PathWitness, k: int)
    requires
        w.inv(),
        w.chained(),
        w.honest(),
        0 <= k < MERKLE_DEPTH,
    ensures
        root_from_path(w.layers@[k].a@, w.siblings().skip(k), w.position_bits().skip(k))
            == w.claimed_root(),
    decreases MERKLE_DEPTH - k,
{
    let sib = w.siblings().skip(k);
    let bits = w.position_bits().skip(k);
    assert(sib[0] == w.siblings()[k]);
    assert(bits[0] == w.position_bits()[k]);
    assert(sib.skip(1) =~= w.siblings().skip(k + 1));
    assert(bits.skip(1) =~= w.position_bits().skip(k + 1));
    let node = w.layers@[k].a@;
    let digest = next_node(node, w.siblings()[k], w.position_bits()[k]);
    assert(digest == w.layer_digest(k));
    assert(root_from_path(node, sib, bits) == root_from_path(
        digest,
        w.siblings().skip(k + 1),
        w.position_bits().skip(k + 1),
    ));
    if k == MERKLE_DEPTH - 1 {
        assert(w.siblings().skip(MERKLE_DEPTH as int).len() == 0);
        assert(root_from_path(
            digest,
            w.siblings().skip(MERKLE_DEPTH as int),
            w.position_bits().skip(MERKLE_DEPTH as int),
        ) == digest);
    } else {
        assert(w.layers@[k + 1].a@ == w.layer_digest(k));
        lemma_chained_witness_suffix(w, k + 1);
    }
}

} // verus!
