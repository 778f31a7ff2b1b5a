//! In-circuit Merkle-path authentication for a Semaphore-style
//! anonymous-signaling protocol.
//!
//! The crate models the arithmetic core of the circuit: the boolean and swap
//! gates of the Merkle layer chip, the layer-by-layer path evaluation that
//! folds a leaf up to a root, and the identity wiring that derives the
//! public instances (external nullifier, nullifier hash, Merkle root) from
//! the private inputs. Field arithmetic and the Poseidon compression come
//! from the proof-system crates and are reached through a few trusted
//! wrappers; everything built on top of them is verified.

use vstd::prelude::*;

pub mod chip;
pub mod field;
pub mod merkle;
pub mod poseidon;
pub mod semaphore;

verus! {

/// Number of Merkle tree layers between a leaf and the root; fixed at
/// compile time and shared by prover and verifier.
pub const MERKLE_DEPTH: usize = 4;

} // verus!
