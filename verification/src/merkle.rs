//! Merkle membership and interval-gap nonmembership. Membership reconstructs
//! the root from a leaf along an authenticated path, with a conditional swap
//! per level for the two-ary curve-hash variant and a conditional substitution
//! per level for the eight-ary permutation-hash variant. Nonmembership of a
//! serial number is shown by placing it strictly inside a registered gap.
use vstd::prelude::*;
use crate::SynthesisError;
use crate::field::{Fe, fe_p, fe_add, fe_sub};
use crate::bits::{bits_val, nat_bits_le, lemma_bits_val_unique};
use crate::compare::leq_not_fixed;
use crate::constants::{PoseidonConstants, fe_vec_wf};
use crate::curve::{HashPersona, pedersen_hash_x, pedersen_x_of};
use crate::hashes::{poseidon, poseidon_spec, fe_vals};

verus! {

/// One step of the two-ary path: order the running value and the sibling by
/// the position bit and hash the pair at the level's domain code.
pub open spec fn merkle1_step(cur: nat, sibling: nat, is_right: bool, level: int) -> nat {
    let xl = if is_right {
        sibling
    } else {
        cur
    };
    let xr = if is_right {
        cur
    } else {
        sibling
    };
    pedersen_x_of(level, nat_bits_le(xl, 255) + nat_bits_le(xr, 255))
}

/// The root reconstructed from the first `n` levels of a two-ary path.
pub open spec fn merkle1_root(leaf: nat, path: Seq<(Fe, bool)>, n: int) -> nat
    decreases n,
{
    if n <= 0 {
        leaf
    } else {
        merkle1_step(merkle1_root(leaf, path, n - 1), path[n - 1].0.val(), path[n - 1].1, n - 1)
    }
}

/// Every sibling on a two-ary path is canonical.
pub open spec fn path1_wf(path: Seq<(Fe, bool)>) -> bool {
    forall|i: int| 0 <= i < path.len() ==> (#[trigger] path[i]).0.wf()
}

/// Two-ary membership: ascends the authentication path from the leaf and
/// returns the reconstructed root, which the statement exposes.
pub fn coin_commitment_membership1(leaf: &Fe, path: &Vec<(Fe, bool)>) -> (r: Fe)
    requires
        leaf.wf(),
        path1_wf(path@),
        path@.len() < 63,
    ensures
        r.wf(),
        r.val() == merkle1_root(leaf.val(), path@, path@.len() as int),
{
    let mut cur = *leaf;
    let mut i: usize = 0;
    let n = path.len();
    while i < n
        invariant
            i <= n,
            n == path@.len() < 63,
            path1_wf(path@),
            leaf.wf(),
            cur.wf(),
            cur.val() == merkle1_root(leaf.val(), path@, i as int),
        decreases n - i,
    {
        let (sibling, is_right) = path[i];
        let (xl, xr) = if is_right {
            (sibling, cur)
        } else {
            (cur, sibling)
        };
        let mut bits = xl.to_bits_le();
        let mut rbits = xr.to_bits_le();
        let ghost lb = bits@;
        let ghost rb = rbits@;
        bits.append(&mut rbits);
        proof {
            assert(bits@ =~= lb + rb);
            lemma_bits_val_unique(lb);
            lemma_bits_val_unique(rb);
            assert(lb + rb =~= nat_bits_le(xl.val(), 255) + nat_bits_le(xr.val(), 255));
        }
        cur = pedersen_hash_x(&HashPersona::MerkleTree(i), &bits);
        i += 1;
    }
    cur
}

/// The effective eight-ary node: the running value substituted at the indexed
/// position when the index is in range, the witnessed siblings alone
/// otherwise.
pub open spec fn merkle2_node(sibs: Seq<Fe>, idx: nat, cur: nat) -> Seq<nat> {
    if idx < 8 {
        fe_vals(sibs).update(idx as int, cur)
    } else {
        fe_vals(sibs)
    }
}

/// Whether the level's product constraint is satisfiable: the running value
/// must occur in the effective node.
pub open spec fn merkle2_level_ok(sibs: Seq<Fe>, idx: nat, cur: nat) -> bool {
    merkle2_node(sibs, idx, cur).contains(cur)
}

/// The root reconstructed from the first `n` levels of an eight-ary path.
pub open spec fn merkle2_root(
    c: &PoseidonConstants,
    leaf: nat,
    path: Seq<([Fe; 8], u8)>,
    n: int,
) -> nat
    decreases n,
{
    if n <= 0 {
        leaf
    } else {
        poseidon_spec(
            c,
            merkle2_node(
                path[n - 1].0@,
                path[n - 1].1 as nat,
                merkle2_root(c, leaf, path, n - 1),
            ),
        )
    }
}

/// Whether every level's product constraint holds along the first `n` levels.
pub open spec fn merkle2_ok(c: &PoseidonConstants, leaf: nat, path: Seq<([Fe; 8], u8)>, n: int) -> bool
    decreases n,
{
    if n <= 0 {
        true
    } else {
        merkle2_ok(c, leaf, path, n - 1) && merkle2_level_ok(
            path[n - 1].0@,
            path[n - 1].1 as nat,
            merkle2_root(c, leaf, path, n - 1),
        )
    }
}

/// Every sibling on an eight-ary path is canonical.
pub open spec fn path2_wf(path: Seq<([Fe; 8], u8)>) -> bool {
    forall|i: int| 0 <= i < path.len() ==> fe_vec_wf((#[trigger] path[i]).0@)
}

/// If the first `n` levels are satisfiable, so are the first `m <= n`.
proof fn lemma_merkle2_ok_monotone(
    c: &PoseidonConstants,
    leaf: nat,
    path: Seq<([Fe; 8], u8)>,
    m: int,
    n: int,
)
    requires
        m <= n,
        merkle2_ok(c, leaf, path, n),
    ensures
        merkle2_ok(c, leaf, path, m),
    decreases n - m,
{
    if m < n {
        lemma_merkle2_ok_monotone(c, leaf, path, m, n - 1);
    }
}

/// Eight-ary membership: per level the running value replaces the sibling at
/// the indexed position, the eight values are hashed with the permutation
/// hash, and the product constraint requires the running value to occur in
/// the node; the reconstructed root is returned.
pub fn coin_commitment_membership2(c: &PoseidonConstants, leaf: &Fe, path: &Vec<([Fe; 8], u8)>) -> (r:
    Result<Fe, SynthesisError>)
    requires
        c.wf(),
        leaf.wf(),
        path2_wf(path@),
    ensures
        r is Ok <==> merkle2_ok(c, leaf.val(), path@, path@.len() as int),
        r matches Ok(root) ==> root.wf() && root.val() == merkle2_root(
            c,
            leaf.val(),
            path@,
            path@.len() as int,
        ),
        r is Err ==> r == Err::<Fe, SynthesisError>(SynthesisError::Unsatisfiable),
{
    let mut cur = *leaf;
    let mut i: usize = 0;
    let n = path.len();
    while i < n
        invariant
            i <= n,
            n == path@.len(),
            c.wf(),
            leaf.wf(),
            path2_wf(path@),
            cur.wf(),
            cur.val() == merkle2_root(c, leaf.val(), path@, i as int),
            merkle2_ok(c, leaf.val(), path@, i as int),
        decreases n - i,
    {
        let (sibs, idx) = path[i];
        let mut node: Vec<Fe> = Vec::new();
        let mut j: usize = 0;
        while j < 8
            invariant
                j <= 8,
                i < n == path@.len(),
                path2_wf(path@),
                cur.wf(),
                sibs@ =~= path@[i as int].0@,
                idx == path@[i as int].1,
                node@.len() == j,
                fe_vec_wf(node@),
                forall|k: int| 0 <= k < j ==> (#[trigger] node@[k]).val() == merkle2_node(
                    sibs@,
                    idx as nat,
                    cur.val(),
                )[k],
            decreases 8 - j,
        {
            if idx as usize == j {
                node.push(cur);
            } else {
                node.push(sibs[j]);
            }
            j += 1;
        }
        proof {
            assert(fe_vals(node@) =~= merkle2_node(sibs@, idx as nat, cur.val()));
        }
        // the product constraint: the running value must occur in the node
        let mut present = false;
        let mut j: usize = 0;
        while j < 8
            invariant
                j <= 8,
                node@.len() == 8,
                fe_vec_wf(node@),
                cur.wf(),
                present == exists|k: int|
                    0 <= k < j && (#[trigger] fe_vals(node@)[k]) == cur.val(),
            decreases 8 - j,
        {
            let eq = node[j].equals(&cur);
            if eq {
                present = true;
            }
            proof {
                assert(fe_vals(node@)[j as int] == node@[j as int].val());
                if eq {
                    assert(fe_vals(node@)[j as int] == cur.val());
                } else {
                    assert(fe_vals(node@)[j as int] != cur.val());
                }
            }
            j += 1;
        }
        if !present {
            proof {
                assert(!merkle2_level_ok(sibs@, idx as nat, cur.val())) by {
                    if merkle2_node(sibs@, idx as nat, cur.val()).contains(cur.val()) {
                        let k = choose|k: int|
                            0 <= k < merkle2_node(sibs@, idx as nat, cur.val()).len()
                                && merkle2_node(sibs@, idx as nat, cur.val())[k] == cur.val();
                        assert(fe_vals(node@)[k] == cur.val());
                    }
                }
                lemma_merkle2_not_ok(c, leaf.val(), path@, i as int, n as int);
            }
            return Err(SynthesisError::Unsatisfiable);
        }
        proof {
            assert(merkle2_level_ok(sibs@, idx as nat, cur.val())) by {
                let k = choose|k: int| 0 <= k < 8 && fe_vals(node@)[k] == cur.val();
                assert(merkle2_node(sibs@, idx as nat, cur.val())[k] == cur.val());
            }
        }
        cur = poseidon(c, &node);
        i += 1;
    }
    Ok(cur)
}

/// A level whose product constraint fails makes the whole path fail.
proof fn lemma_merkle2_not_ok(
    c: &PoseidonConstants,
    leaf: nat,
    path: Seq<([Fe; 8], u8)>,
    i: int,
    n: int,
)
    requires
        0 <= i < n,
        merkle2_ok(c, leaf, path, i),
        !merkle2_level_ok(path[i].0@, path[i].1 as nat, merkle2_root(c, leaf, path, i)),
    ensures
        !merkle2_ok(c, leaf, path, n),
{
    if merkle2_ok(c, leaf, path, n) {
        lemma_merkle2_ok_monotone(c, leaf, path, i + 1, n);
    }
}

/// Whether the gap placement is satisfiable: both offsets nonzero, the lower
/// bound not wrapping below the serial number, the upper bound not wrapping
/// above the field.
pub open spec fn gap_ok(sn: nat, less_diff: nat, plus_diff: nat) -> bool {
    &&& less_diff != 0
    &&& plus_diff != 0
    &&& less_diff <= sn
    &&& sn + plus_diff < fe_p()
}

/// The serial-number gap placement: forms `sn_less = sn - less_diff` and
/// `sn_plus = sn + plus_diff` in the field, requires both offsets nonzero,
/// and enforces `sn_less <= sn <= sn_plus` over the bit decompositions, so
/// that it succeeds exactly when the serial number lies strictly between the
/// two bounds.
pub fn serial_number_gap(sn: &Fe, sn_less_diff: &Fe, sn_plus_diff: &Fe) -> (r: Result<
    (Fe, Fe),
    SynthesisError,
>)
    requires
        sn.wf(),
        sn_less_diff.wf(),
        sn_plus_diff.wf(),
    ensures
        r is Ok <==> gap_ok(sn.val(), sn_less_diff.val(), sn_plus_diff.val()),
        r matches Ok(bounds) ==> bounds.0.wf() && bounds.1.wf() && bounds.0.val() + sn_less_diff.val()
            == sn.val() && bounds.1.val() == sn.val() + sn_plus_diff.val() && bounds.0.val()
            < sn.val() < bounds.1.val(),
        (sn_less_diff.val() == 0 || sn_plus_diff.val() == 0) ==> r == Err::<
            (Fe, Fe),
            SynthesisError,
        >(SynthesisError::DivisionByZero),
        r is Err ==> (r == Err::<(Fe, Fe), SynthesisError>(SynthesisError::DivisionByZero) || r
            == Err::<(Fe, Fe), SynthesisError>(SynthesisError::Unsatisfiable)),
{
    let zero = Fe::zero();
    if sn_less_diff.equals(&zero) || sn_plus_diff.equals(&zero) {
        proof {
            if sn_less_diff.val() != 0 && sn_plus_diff.val() != 0 {
                assert(false);
            }
        }
        return Err(SynthesisError::DivisionByZero);
    }
    let sn_less = fe_sub(sn, sn_less_diff);
    let sn_plus = fe_add(sn, sn_plus_diff);
    proof {
        let p = fe_p() as int;
        let snv = sn.val() as int;
        let d1 = sn_less_diff.val() as int;
        let d2 = sn_plus_diff.val() as int;
        if d1 <= snv {
            vstd::arithmetic::div_mod::lemma_fundamental_div_mod_converse(
                snv + p - d1,
                p,
                1,
                snv - d1,
            );
        } else {
            vstd::arithmetic::div_mod::lemma_small_mod(
                (sn.val() + fe_p() - sn_less_diff.val()) as nat,
                fe_p(),
            );
        }
        if snv + d2 < p {
            vstd::arithmetic::div_mod::lemma_small_mod((sn.val() + sn_plus_diff.val()) as nat, fe_p());
        } else {
            vstd::arithmetic::div_mod::lemma_fundamental_div_mod_converse(
                snv + d2,
                p,
                1,
                snv + d2 - p,
            );
        }
    }
    let sn_bits = sn.to_bits_le();
    let less_bits = sn_less.to_bits_le();
    let plus_bits = sn_plus.to_bits_le();
    match leq_not_fixed(&less_bits, &sn_bits) {
        Ok(()) => (),
        Err(e) => {
            return Err(e);
        },
    }
    match leq_not_fixed(&sn_bits, &plus_bits) {
        Ok(()) => (),
        Err(e) => {
            return Err(e);
        },
    }
    Ok((sn_less, sn_plus))
}

/// Law: the gap placement accepts exactly the strict placements. For bounds
/// with nonzero offsets on both sides it accepts, and a serial number equal
/// to either bound makes an offset zero, which it rejects.
pub proof fn lemma_gap_strictness(sn: nat, sn_less: nat, sn_plus: nat)
    requires
        sn_plus < fe_p(),
    ensures
        sn_less < sn < sn_plus ==> gap_ok(sn, (sn - sn_less) as nat, (sn_plus - sn) as nat),
        sn == sn_less ==> !gap_ok(sn, (sn - sn_less) as nat, (sn_plus - sn) as nat),
        sn == sn_plus ==> !gap_ok(sn, (sn - sn_less) as nat, (sn_plus - sn) as nat),
{
}


/// Two-ary nonmembership-tree ascent for the serial-number gap: the same
/// authenticated-path reconstruction, over the gap tree.
pub fn serial_number_nonmembership1(sn_box: &Fe, path: &Vec<(Fe, bool)>) -> (r: Fe)
    requires
        sn_box.wf(),
        path1_wf(path@),
        path@.len() < 63,
    ensures
        r.wf(),
        r.val() == merkle1_root(sn_box.val(), path@, path@.len() as int),
{
    coin_commitment_membership1(sn_box, path)
}

/// Eight-ary nonmembership-tree ascent for the serial-number gap.
pub fn serial_number_nonmembership2(c: &PoseidonConstants, sn_box: &Fe, path: &Vec<([Fe; 8], u8)>) -> (r: Result<Fe, SynthesisError>)
    requires
        c.wf(),
        sn_box.wf(),
        path2_wf(path@),
    ensures
        r is Ok <==> merkle2_ok(c, sn_box.val(), path@, path@.len() as int),
        r matches Ok(root) ==> root.wf() && root.val() == merkle2_root(
            c,
            sn_box.val(),
            path@,
            path@.len() as int,
        ),
        r is Err ==> r == Err::<Fe, SynthesisError>(SynthesisError::Unsatisfiable),
{
    coin_commitment_membership2(c, sn_box, path)
}

/// The root of a path under the selected hash mode.
pub open spec fn membership_root_spec(
    c: &PoseidonConstants,
    use_poseidon: bool,
    leaf: nat,
    path1: Seq<(Fe, bool)>,
    path2: Seq<([Fe; 8], u8)>,
) -> nat {
    if use_poseidon {
        merkle2_root(c, leaf, path2, path2.len() as int)
    } else {
        merkle1_root(leaf, path1, path1.len() as int)
    }
}

/// Whether the mode's path constraints are satisfiable; the two-ary variant
/// always is.
pub open spec fn membership_ok_spec(
    c: &PoseidonConstants,
    use_poseidon: bool,
    leaf: nat,
    path2: Seq<([Fe; 8], u8)>,
) -> bool {
    if use_poseidon {
        merkle2_ok(c, leaf, path2, path2.len() as int)
    } else {
        true
    }
}

/// Membership under the selected hash mode: ascends the mode's path and
/// returns the root the statement exposes.
pub fn coin_commitment_membership(
    c: &PoseidonConstants,
    use_poseidon: bool,
    leaf: &Fe,
    path1: &Vec<(Fe, bool)>,
    path2: &Vec<([Fe; 8], u8)>,
) -> (r: Result<Fe, SynthesisError>)
    requires
        c.wf(),
        leaf.wf(),
        path1_wf(path1@),
        path1@.len() < 63,
        path2_wf(path2@),
    ensures
        r is Ok <==> membership_ok_spec(c, use_poseidon, leaf.val(), path2@),
        r matches Ok(root) ==> root.wf() && root.val() == membership_root_spec(
            c,
            use_poseidon,
            leaf.val(),
            path1@,
            path2@,
        ),
        r is Err ==> r == Err::<Fe, SynthesisError>(SynthesisError::Unsatisfiable),
{
    if use_poseidon {
        coin_commitment_membership2(c, leaf, path2)
    } else {
        Ok(coin_commitment_membership1(leaf, path1))
    }
}

/// Nonmembership-tree ascent under the selected hash mode.
pub fn serial_number_nonmembership(
    c: &PoseidonConstants,
    use_poseidon: bool,
    sn_box: &Fe,
    path1: &Vec<(Fe, bool)>,
    path2: &Vec<([Fe; 8], u8)>,
) -> (r: Result<Fe, SynthesisError>)
    requires
        c.wf(),
        sn_box.wf(),
        path1_wf(path1@),
        path1@.len() < 63,
        path2_wf(path2@),
    ensures
        r is Ok <==> membership_ok_spec(c, use_poseidon, sn_box.val(), path2@),
        r matches Ok(root) ==> root.wf() && root.val() == membership_root_spec(
            c,
            use_poseidon,
            sn_box.val(),
            path1@,
            path2@,
        ),
        r is Err ==> r == Err::<Fe, SynthesisError>(SynthesisError::Unsatisfiable),
{
    if use_poseidon {
        serial_number_nonmembership2(c, sn_box, path2)
    } else {
        Ok(serial_number_nonmembership1(sn_box, path1))
    }
}

} // verus!
