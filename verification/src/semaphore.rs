//! The identity wiring: derives the identity commitment and the nullifier
//! hash from the private inputs by two independent hash invocations, feeds
//! the commitment into the Merkle-path evaluator as the leaf, and lays the
//! three public instances out at their fixed offsets.
//!
//! A proof over this wiring attests that some trapdoor and nullifier hash
//! to a leaf of the tree under the exposed root, and that the exposed
//! nullifier hash is derived from that nullifier and the stated external
//! nullifier — without revealing the trapdoor, the nullifier, the path or
//! the position bits.

use vstd::prelude::*;

use crate::field::Felt;
use crate::merkle::{root_from_path, MerklePath};
use crate::poseidon::{hash_pair, poseidon_of};

verus! {

/// Instance offset of the external nullifier.
pub const EXTERNAL_NULLIFIER: usize = 0;

/// Instance offset of the nullifier hash.
pub const NULLIFIER_HASH: usize = 1;

/// Instance offset of the Merkle root.
pub const ROOT: usize = 2;

/// The identity commitment: the digest of the trapdoor and the nullifier,
/// in that order.
pub open spec fn identity_commitment_of(trapdoor: nat, nullifier: nat) -> nat {
    poseidon_of(trapdoor, nullifier)
}

/// The nullifier hash: the digest of the nullifier and the external
/// nullifier, in that order.
pub open spec fn nullifier_hash_of(nullifier: nat, external_nullifier: nat) -> nat {
    poseidon_of(nullifier, external_nullifier)
}

/// The private inputs of one proof: the three secret scalars and the
/// authentication path of the identity commitment. No relation between
/// the scalars is assumed beyond what the hashes impose.
pub struct SemaphoreWitness {
    pub identity_trapdoor: Felt,
    pub identity_nullifier: Felt,
    pub external_nullifier: Felt,
    pub merkle: MerklePath,
}

/// The three field elements a verifier must supply, each bound to its
/// fixed instance offset.
pub struct PublicInputs {
    pub external_nullifier: Felt,
    pub nullifier_hash: Felt,
    pub root: Felt,
}

impl SemaphoreWitness {
    /// All scalars are reduced field elements and the path spans the
    /// fixed depth.
    pub open spec fn inv(&self) -> bool {
        &&& self.identity_trapdoor.inv()
        &&& self.identity_nullifier.inv()
        &&& self.external_nullifier.inv()
        &&& self.merkle.inv()
    }

    /// The root that the path evaluation reaches from this witness's
    /// identity commitment.
    pub open spec fn claimed_root(&self) -> nat {
        root_from_path(
            identity_commitment_of(self.identity_trapdoor@, self.identity_nullifier@),
            self.merkle.siblings(),
            self.merkle.position_bits(),
        )
    }

    /// Synthesizes the public side of the witness: hashes the trapdoor
    /// and nullifier into the identity commitment, the nullifier and the
    /// external nullifier into the nullifier hash, folds the commitment
    /// through the Merkle path, and exposes the three instance values.
    pub fn public_inputs(&self) -> (r: PublicInputs)
        requires
            self.inv(),
        ensures
            r.inv(),
            r.external_nullifier@ == self.external_nullifier@,
            r.nullifier_hash@ == nullifier_hash_of(
                self.identity_nullifier@,
                self.external_nullifier@,
            ),
            r.root@ == self.claimed_root(),
    {
        let identity_commitment = hash_pair(&self.identity_trapdoor, &self.identity_nullifier);
        let nullifier_hash = hash_pair(&self.identity_nullifier, &self.external_nullifier);
        let root = self.merkle.calculate_root(identity_commitment);
        PublicInputs { external_nullifier: self.external_nullifier, nullifier_hash, root }
    }
}

impl PublicInputs {
    /// All three instance values are reduced field elements.
    pub open spec fn inv(&self) -> bool {
        self.external_nullifier.inv() && self.nullifier_hash.inv() && self.root.inv()
    }

    /// The instance column as the verifier reads it: the external
    /// nullifier at offset 0, the nullifier hash at offset 1, the root at
    /// offset 2.
    pub fn to_values(&self) -> (r: Vec<Felt>)
        ensures
            r@.len() == 3,
            r@[EXTERNAL_NULLIFIER as int] == self.external_nullifier,
            r@[NULLIFIER_HASH as int] == self.nullifier_hash,
            r@[ROOT as int] == self.root,
    {
        let mut r: Vec<Felt> = Vec::new();
        r.push(self.external_nullifier);
        r.push(self.nullifier_hash);
        r.push(self.root);
        r
    }
}

} // verus!
