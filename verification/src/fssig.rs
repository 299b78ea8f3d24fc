//! The hashed layer of the eight-way sum composition of the forward-secure
//! signature scheme: a composed public key is the standalone permutation
//! hash of its eight constituent public keys, read as field elements. The
//! curve-level signing and verification underneath are external primitives.
use vstd::prelude::*;
use crate::field::Fe;
use crate::constants::{PoseidonConstants, fe_vec_wf};
use crate::hashes::{poseidon_hash, poseidon_hash_spec, fe_vals};

verus! {

/// The eight-way sum composition, at the level where public keys are field
/// elements.
pub struct SumCompositionEight;

impl SumCompositionEight {
    /// The composed public key: the standalone permutation hash over the
    /// eight constituent public keys.
    pub fn hash_public_keys(c: &PoseidonConstants, public_keys: &Vec<Fe>) -> (r: Fe)
        requires
            c.wf(),
            public_keys@.len() == 8,
            fe_vec_wf(public_keys@),
        ensures
            r.wf(),
            r.val() == poseidon_hash_spec(c, fe_vals(public_keys@)),
    {
        poseidon_hash(c, public_keys)
    }

    /// A fresh vector holding the same eight public keys.
    pub fn clone_public_keys(public_keys: &Vec<Fe>) -> (r: Vec<Fe>)
        requires
            public_keys@.len() == 8,
        ensures
            r@ =~= public_keys@,
    {
        let mut out: Vec<Fe> = Vec::new();
        let mut i: usize = 0;
        while i < 8
            invariant
                i <= 8,
                public_keys@.len() == 8,
                out@ =~= public_keys@.take(i as int),
            decreases 8 - i,
        {
            out.push(public_keys[i]);
            proof {
                assert(public_keys@.take(i + 1) =~= public_keys@.take(i as int).push(
                    public_keys@[i as int],
                ));
            }
            i += 1;
        }
        proof {
            assert(public_keys@.take(8) =~= public_keys@);
        }
        out
    }
}

} // verus!
