//! Witness-level library for an anonymous proof-of-stake eligibility circuit.
//!
//! The library models the semantics of the constraint-system gadgets: bit-vector
//! comparisons, an algebraic permutation hash, an algebraic PRF, Merkle
//! membership and gap-nonmembership, a forward-secure key tree, and a
//! stake-weighted binomial sortition sampler, composed by a top-level statement
//! builder. Every function states what it computes, and when it fails, over a
//! mathematical model of the prime field.
use vstd::prelude::*;

pub mod bits;
pub mod circuit;
pub mod compare;
pub mod constants;
pub mod curve;
pub mod config;
pub mod field;
pub mod fssig;
pub mod fstree;
pub mod hashes;
pub mod inputs;
pub mod merkle;
pub mod prf;
pub mod sortition;

verus! {

/// The three failure kinds of witness construction: a needed witness value was
/// not supplied, an algebraic inverse of zero was requested, or an enforced
/// relation cannot be satisfied (including a degenerate constant bound).
#[derive(Clone, Copy, Debug, PartialEq, Eq, Structural)]
pub enum SynthesisError {
    AssignmentMissing,
    DivisionByZero,
    Unsatisfiable,
}

} // verus!
