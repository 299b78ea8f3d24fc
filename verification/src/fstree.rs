//! The forward-secure key tree: derives the public key valid at the epoch
//! `role - fs_tree_start`, constrained to fit thirty-six bits. Each of the
//! four levels folds an eight-ary, three-stage selection over the witnessed
//! subtree values, with the running value substituted at the position the
//! time bits select; a level's starting value is the hash of the raw secret
//! at the bottom level and a witnessed authenticated point's u-coordinate
//! above it. The Schnorr relation that authenticates each witnessed point
//! against the level below is an external, pre-proven sub-circuit consuming
//! the witnessed points and the level digests; this layer derives the
//! digests.
use vstd::prelude::*;
use vstd::arithmetic::power2::*;
use crate::SynthesisError;
use crate::field::{Fe, fe_sub, fe_p, lemma_fe_p_large};
use crate::bits::{bits_val, bit1, nat_bits_le, u64_to_bits_le, lemma_bits_val_take,
    lemma_bits_val_unique, lemma_bits_slice_val};
use crate::compare::leq_not_fixed;
use crate::constants::{PoseidonConstants, fe_vec_wf};
use crate::hashes::{poseidon, poseidon_spec, fe_vals, crh_one_spec, crh_elems_spec,
    crh_poseidon_or_pedersen_elem_with_zero, crh_poseidon_or_pedersen_elems};

verus! {

/// The private witness of the forward-secure tree: the raw bottom-level
/// secret, the u-coordinates of the witnessed authenticated points and of
/// the Schnorr commitments of the three upper levels, and the subtree values
/// of the four levels' three selection stages.
#[derive(Clone)]
pub struct FsWitness {
    pub sk0: Fe,
    pub pk_x: Vec<Fe>,
    pub r_x: Vec<Fe>,
    pub main_tree: Vec<Vec<Vec<Fe>>>,
}

impl FsWitness {
    pub open spec fn wf(&self) -> bool {
        &&& self.sk0.wf()
        &&& self.pk_x@.len() == 3
        &&& fe_vec_wf(self.pk_x@)
        &&& self.r_x@.len() == 3
        &&& fe_vec_wf(self.r_x@)
        &&& self.main_tree@.len() == 4
        &&& forall|i: int|
            0 <= i < 4 ==> (#[trigger] self.main_tree@[i])@.len() == 3
        &&& forall|i: int, j: int|
            0 <= i < 4 && 0 <= j < 3 ==> (#[trigger] self.main_tree@[i]@[j])@.len() == 8
                && fe_vec_wf(self.main_tree@[i]@[j]@)
    }
}

/// The three-bit index selected by one stage's time bits.
pub open spec fn triple_val(tbits: Seq<bool>, base: int) -> nat {
    bit1(tbits[base]) + 2 * bit1(tbits[base + 1]) + 4 * bit1(tbits[base + 2])
}

/// The eight-ary compression of one stage under the selected hash mode: the
/// permutation hash of the eight values, or the binary curve-hash fold.
pub open spec fn hash8_spec(c: &PoseidonConstants, use_poseidon: bool, vals: Seq<nat>) -> nat {
    if use_poseidon {
        poseidon_spec(c, vals)
    } else {
        let t0 = crh_elems_spec(c, false, vals[0], vals[1]);
        let t1 = crh_elems_spec(c, false, vals[2], vals[3]);
        let t2 = crh_elems_spec(c, false, vals[4], vals[5]);
        let t3 = crh_elems_spec(c, false, vals[6], vals[7]);
        crh_elems_spec(
            c,
            false,
            crh_elems_spec(c, false, t0, t1),
            crh_elems_spec(c, false, t2, t3),
        )
    }
}

/// One selection stage: the running value replaces the witnessed subtree
/// value at the selected position and the eight values are compressed.
pub open spec fn fs_step(
    c: &PoseidonConstants,
    use_poseidon: bool,
    stage: Seq<Fe>,
    idx: nat,
    cur: nat,
) -> nat {
    hash8_spec(c, use_poseidon, fe_vals(stage).update(idx as int, cur))
}

/// A level's starting value: the hash of the raw secret at the bottom level,
/// a witnessed point's u-coordinate above it.
pub open spec fn fs_level_start(
    c: &PoseidonConstants,
    use_poseidon: bool,
    w: &FsWitness,
    i: int,
) -> nat {
    if i == 0 {
        crh_one_spec(c, use_poseidon, w.sk0.val())
    } else {
        w.pk_x@[i - 1].val()
    }
}

/// The running value of level `i` after its first `j` stages.
pub open spec fn fs_level_chain(
    c: &PoseidonConstants,
    use_poseidon: bool,
    w: &FsWitness,
    tbits: Seq<bool>,
    i: int,
    j: int,
) -> nat
    decreases j,
{
    if j <= 0 {
        fs_level_start(c, use_poseidon, w, i)
    } else {
        fs_step(
            c,
            use_poseidon,
            w.main_tree@[i]@[j - 1]@,
            triple_val(tbits, 9 * i + 3 * (j - 1)),
            fs_level_chain(c, use_poseidon, w, tbits, i, j - 1),
        )
    }
}

/// A level's digest: its running value after all three stages.
pub open spec fn fs_level_digest(
    c: &PoseidonConstants,
    use_poseidon: bool,
    w: &FsWitness,
    tbits: Seq<bool>,
    i: int,
) -> nat {
    fs_level_chain(c, use_poseidon, w, tbits, i, 3)
}

/// The main forward-secure derivation: checks that the witnessed epoch
/// matches the committed time value in thirty-six bits, and returns the four
/// level digests, of which the last is the forward-secure public key and the
/// lower three feed the external transition authentication.
pub fn forward_secure_tree_main(
    c: &PoseidonConstants,
    use_poseidon: bool,
    time: &Fe,
    diff: u64,
    w: &FsWitness,
) -> (r: Result<Vec<Fe>, SynthesisError>)
    requires
        c.wf(),
        time.wf(),
        w.wf(),
    ensures
        r is Ok <==> (diff as nat) % pow2(36) == time.val(),
        r matches Ok(digests) ==> digests@.len() == 4 && fe_vec_wf(digests@) && forall|i: int|
            0 <= i < 4 ==> (#[trigger] digests@[i]).val() == fs_level_digest(
                c,
                use_poseidon,
                w,
                nat_bits_le((diff as nat) % pow2(36), 36),
                i,
            ),
        r is Err ==> r == Err::<Vec<Fe>, SynthesisError>(SynthesisError::Unsatisfiable),
{
    let mut time_bits = u64_to_bits_le(diff);
    proof {
        lemma_bits_val_take(time_bits@, 36);
        lemma_bits_slice_val(time_bits@, 0, 36);
        assert(time_bits@.subrange(0, 36) =~= time_bits@.take(36));
        lemma_pow2_pos(0);
        lemma2_to64();
        vstd::arithmetic::div_mod::lemma_div_of0(pow2(0) as int);
    }
    time_bits.truncate(36);
    proof {
        // the truncated bits carry the epoch modulo 2^36
        assert(bits_val(time_bits@) == (diff as nat) % pow2(36)) by {
            vstd::arithmetic::div_mod::lemma_div_basics(diff as int);
            assert((diff as nat) / pow2(0) == diff as nat);
        }
        lemma_bits_val_unique(time_bits@);
    }
    // the enforced equality of the time accumulator against the committed value
    proof {
        crate::bits::lemma_bits_val_bound(time_bits@);
        assert(time_bits@.take(36) =~= time_bits@);
        lemma2_to64_rest();
    }
    let tb_val = crate::compare::bits_value_u128(&time_bits, 36);
    let time_lo = time_value_check(time, tb_val);
    if !time_lo {
        return Err(SynthesisError::Unsatisfiable);
    }
    let ghost tbits = time_bits@;
    let mut digests: Vec<Fe> = Vec::new();
    let mut i: usize = 0;
    while i < 4
        invariant
            i <= 4,
            c.wf(),
            w.wf(),
            time_bits@.len() == 36,
            tbits =~= time_bits@,
            digests@.len() == i,
            fe_vec_wf(digests@),
            forall|k: int|
                0 <= k < i ==> (#[trigger] digests@[k]).val() == fs_level_digest(
                    c,
                    use_poseidon,
                    w,
                    tbits,
                    k,
                ),
        decreases 4 - i,
    {
        let mut cur: Fe = if i == 0 {
            crh_poseidon_or_pedersen_elem_with_zero(c, use_poseidon, &w.sk0)
        } else {
            w.pk_x[i - 1]
        };
        let mut j: usize = 0;
        while j < 3
            invariant
                j <= 3,
                i < 4,
                c.wf(),
                w.wf(),
                time_bits@.len() == 36,
                tbits =~= time_bits@,
                cur.wf(),
                cur.val() == fs_level_chain(c, use_poseidon, w, tbits, i as int, j as int),
            decreases 3 - j,
        {
            let b0 = time_bits[9 * i + 3 * j];
            let b1 = time_bits[9 * i + 3 * j + 1];
            let b2 = time_bits[9 * i + 3 * j + 2];
            let idx: usize = (if b0 {
                1
            } else {
                0
            }) + (if b1 {
                2
            } else {
                0
            }) + (if b2 {
                4
            } else {
                0
            });
            let mut node: Vec<Fe> = Vec::new();
            let mut k: usize = 0;
            while k < 8
                invariant
                    k <= 8,
                    i < 4,
                    j < 3,
                    w.wf(),
                    cur.wf(),
                    idx < 8,
                    idx as nat == triple_val(tbits, 9 * i + 3 * j),
                    tbits =~= time_bits@,
                    time_bits@.len() == 36,
                    node@.len() == k,
                    fe_vec_wf(node@),
                    forall|m: int|
                        0 <= m < k ==> (#[trigger] node@[m]).val() == fe_vals(
                            w.main_tree@[i as int]@[j as int]@,
                        ).update(idx as int, cur.val())[m],
                decreases 8 - k,
            {
                if k == idx {
                    node.push(cur);
                } else {
                    node.push(w.main_tree[i][j][k]);
                }
                k += 1;
            }
            proof {
                assert(fe_vals(node@) =~= fe_vals(w.main_tree@[i as int]@[j as int]@).update(
                    idx as int,
                    cur.val(),
                ));
            }
            cur = hash8(c, use_poseidon, &node);
            j += 1;
        }
        digests.push(cur);
        i += 1;
    }
    Ok(digests)
}

/// Whether the committed time value equals the accumulated low bits.
fn time_value_check(time: &Fe, tb_val: u128) -> (r: bool)
    requires
        time.wf(),
        tb_val < 0x10000000000,
    ensures
        r <==> time.val() == tb_val as nat,
{
    let tv = Fe::from_u64(tb_val as u64);
    tv.equals(time)
}

/// The eight-ary compression of one stage under the selected hash mode.
fn hash8(c: &PoseidonConstants, use_poseidon: bool, node: &Vec<Fe>) -> (r: Fe)
    requires
        c.wf(),
        node@.len() == 8,
        fe_vec_wf(node@),
    ensures
        r.wf(),
        r.val() == hash8_spec(c, use_poseidon, fe_vals(node@)),
{
    if use_poseidon {
        poseidon(c, node)
    } else {
        let t0 = crh_poseidon_or_pedersen_elems(c, false, &node[0], &node[1]);
        let t1 = crh_poseidon_or_pedersen_elems(c, false, &node[2], &node[3]);
        let t2 = crh_poseidon_or_pedersen_elems(c, false, &node[4], &node[5]);
        let t3 = crh_poseidon_or_pedersen_elems(c, false, &node[6], &node[7]);
        let t4 = crh_poseidon_or_pedersen_elems(c, false, &t0, &t1);
        let t5 = crh_poseidon_or_pedersen_elems(c, false, &t2, &t3);
        crh_poseidon_or_pedersen_elems(c, false, &t4, &t5)
    }
}

/// The role committed as a field element together with its sixty-four bits.
pub fn get_role_bits(role: u64) -> (r: (Fe, Vec<bool>))
    ensures
        r.0.wf(),
        r.0.val() == role as nat,
        r.1@.len() == 64,
        bits_val(r.1@) == role as nat,
        r.1@ =~= nat_bits_le(role as nat, 64),
{
    let fe = Fe::from_u64(role);
    let bits = u64_to_bits_le(role);
    proof {
        lemma_bits_val_unique(bits@);
    }
    (fe, bits)
}

/// The full forward-secure derivation: commits the role, checks that the
/// tree start does not lie after the role, forms the epoch difference, and
/// derives the tree. It fails exactly when the start lies after the role or
/// the difference does not fit thirty-six bits.
pub fn forward_secure_tree(
    c: &PoseidonConstants,
    use_poseidon: bool,
    role: u64,
    fs_tree_start: u64,
    w: &FsWitness,
) -> (r: Result<(Fe, Vec<bool>, Vec<bool>, Fe), SynthesisError>)
    requires
        c.wf(),
        w.wf(),
    ensures
        r is Ok <==> fs_tree_start <= role && role - fs_tree_start < 0x1000000000,
        r matches Ok(out) ==> out.0.wf() && out.0.val() == role as nat && out.1@ =~= nat_bits_le(
            role as nat,
            64,
        ) && out.2@ =~= nat_bits_le(fs_tree_start as nat, 64) && out.3.wf() && out.3.val()
            == fs_level_digest(
            c,
            use_poseidon,
            w,
            nat_bits_le((role - fs_tree_start) as nat, 36),
            3,
        ),
        r is Err ==> r == Err::<(Fe, Vec<bool>, Vec<bool>, Fe), SynthesisError>(
            SynthesisError::Unsatisfiable,
        ),
{
    let (role_fe, role_bits) = get_role_bits(role);
    let start_fe = Fe::from_u64(fs_tree_start);
    let fs_start_bits = u64_to_bits_le(fs_tree_start);
    proof {
        lemma_bits_val_unique(fs_start_bits@);
    }
    match leq_not_fixed(&fs_start_bits, &role_bits) {
        Ok(()) => (),
        Err(e) => {
            return Err(e);
        },
    }
    let time_diff = fe_sub(&role_fe, &start_fe);
    proof {
        vstd::arithmetic::div_mod::lemma_small_mod(
            (role as nat + fe_p() - fs_tree_start as nat - fe_p()) as nat,
            fe_p(),
        );
        let p = fe_p() as int;
        vstd::arithmetic::div_mod::lemma_fundamental_div_mod_converse(
            role as int + p - fs_tree_start as int,
            p,
            1,
            role as int - fs_tree_start as int,
        );
        lemma_fe_p_large();
        lemma2_to64_rest();
        assert(pow2(36) == 0x1000000000) by {
            lemma2_to64_rest();
        }
    }
    let diff = role - fs_tree_start;
    match forward_secure_tree_main(c, use_poseidon, &time_diff, diff, w) {
        Ok(digests) => {
            proof {
                vstd::arithmetic::div_mod::lemma_small_mod(diff as nat, pow2(36));
            }
            let fs_pk = digests[3];
            Ok((role_fe, role_bits, fs_start_bits, fs_pk))
        },
        Err(e) => {
            proof {
                if (diff as nat) < pow2(36) {
                    vstd::arithmetic::div_mod::lemma_small_mod(diff as nat, pow2(36));
                }
            }
            Err(e)
        },
    }
}

} // verus!
