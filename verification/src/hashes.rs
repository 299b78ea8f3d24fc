//! The algebraic permutation hash: a nine-element state iterated through full
//! rounds (every element through the fifth-power S-box) and partial rounds
//! (only the first element), each followed by a fixed linear mixing and, in
//! the in-statement variant, addition of round constants.
use vstd::prelude::*;
use crate::field::{Fe, fe_p, fe_add, fe_mul};
use crate::bits::{nat_bits_le, lemma_bits_val_unique};
use crate::constants::{PoseidonConstants, fe_vec_wf};
use crate::curve::{crh, pedersen_x_of};

verus! {

/// The values a field-element string stands for.
pub open spec fn fe_vals(s: Seq<Fe>) -> Seq<nat> {
    s.map_values(|f: Fe| f.val())
}

/// The fifth power in the field, computed as two squarings and one product.
pub open spec fn sbox5(x: nat) -> nat {
    let x2 = (x * x) % fe_p();
    let x4 = (x2 * x2) % fe_p();
    (x * x4) % fe_p()
}

/// Whether a round applies the S-box to the whole state.
pub open spec fn full_round(c: &PoseidonConstants, round: int) -> bool {
    round < c.r_f / 2 || round >= c.r_p + c.r_f / 2
}

/// The S-box layer of one round: the whole state in a full round, the first
/// element alone in a partial round.
pub open spec fn sbox_layer(st: Seq<nat>, full: bool) -> Seq<nat> {
    if full {
        Seq::new(st.len(), |i: int| sbox5(st[i]))
    } else {
        st.update(0, sbox5(st[0]))
    }
}

/// The running mixed sum of the first `n` matrix-row entries against the
/// state, reduced at each step.
pub open spec fn dot_fold(row: Seq<Fe>, st: Seq<nat>, n: int) -> nat
    decreases n,
{
    if n <= 0 {
        0
    } else {
        (dot_fold(row, st, n - 1) + (row[n - 1].val() * st[n - 1]) % fe_p()) % fe_p()
    }
}

/// One round of the in-statement permutation: S-box layer, mixing, and round
/// constants.
pub open spec fn round_spec(c: &PoseidonConstants, st: Seq<nat>, round: int) -> Seq<nat> {
    let sb = sbox_layer(st, full_round(c, round));
    Seq::new(9, |i: int| (dot_fold(c.mds@[i]@, sb, 9) + c.rounds@[round]@[i].val()) % fe_p())
}

/// One round of the standalone permutation, which mixes without round
/// constants.
pub open spec fn plain_round_spec(c: &PoseidonConstants, st: Seq<nat>, round: int) -> Seq<nat> {
    let sb = sbox_layer(st, full_round(c, round));
    Seq::new(9, |i: int| dot_fold(c.mds@[i]@, sb, 9) % fe_p())
}

/// The state after the first `n` rounds of the in-statement permutation.
pub open spec fn rounds_spec(c: &PoseidonConstants, st: Seq<nat>, n: int) -> Seq<nat>
    decreases n,
{
    if n <= 0 {
        st
    } else {
        round_spec(c, rounds_spec(c, st, n - 1), n - 1)
    }
}

/// The state after the first `n` rounds of the standalone permutation.
pub open spec fn plain_rounds_spec(c: &PoseidonConstants, st: Seq<nat>, n: int) -> Seq<nat>
    decreases n,
{
    if n <= 0 {
        st
    } else {
        plain_round_spec(c, plain_rounds_spec(c, st, n - 1), n - 1)
    }
}

/// The nine-element starting state over eight absorbed inputs: the inputs
/// followed by one zero.
pub open spec fn start_state(inputs: Seq<nat>) -> Seq<nat> {
    inputs.push(0)
}

/// The digest of the in-statement permutation hash over eight inputs.
pub open spec fn poseidon_spec(c: &PoseidonConstants, inputs: Seq<nat>) -> nat {
    rounds_spec(c, start_state(inputs), c.r_f + c.r_p)[0]
}

/// The digest of the standalone permutation hash over eight inputs.
pub open spec fn poseidon_hash_spec(c: &PoseidonConstants, inputs: Seq<nat>) -> nat {
    plain_rounds_spec(c, start_state(inputs), c.r_f + c.r_p)[0]
}

/// The fifth-power S-box, proved as two squarings and a product.
pub fn poseidon_sbox(num: &Fe) -> (r: Fe)
    requires
        num.wf(),
    ensures
        r.wf(),
        r.val() == sbox5(num.val()),
{
    let square = fe_mul(num, num);
    let square_square = fe_mul(&square, &square);
    fe_mul(num, &square_square)
}

/// The S-box layer and the mixing of one round; with `with_constants` the
/// round-constant row is added, as the in-statement permutation does.
fn poseidon_round_generic(c: &PoseidonConstants, input: &Vec<Fe>, round: usize, with_constants: bool) -> (r: Vec<Fe>)
    requires
        c.wf(),
        round < c.r_f + c.r_p,
        input@.len() == 9,
        fe_vec_wf(input@),
    ensures
        r@.len() == 9,
        fe_vec_wf(r@),
        with_constants ==> fe_vals(r@) =~= round_spec(c, fe_vals(input@), round as int),
        !with_constants ==> fe_vals(r@) =~= plain_round_spec(c, fe_vals(input@), round as int),
{
    let full = round < c.r_f / 2 || round >= c.r_p + c.r_f / 2;
    let ghost st = fe_vals(input@);
    let mut cur: Vec<Fe> = Vec::new();
    if full {
        let mut i: usize = 0;
        while i < 9
            invariant
                i <= 9,
                input@.len() == 9,
                fe_vec_wf(input@),
                cur@.len() == i,
                fe_vec_wf(cur@),
                forall|k: int| 0 <= k < i ==> (#[trigger] cur@[k]).val() == sbox5(st[k]),
                st =~= fe_vals(input@),
            decreases 9 - i,
        {
            let v = poseidon_sbox(&input[i]);
            cur.push(v);
            i += 1;
        }
    } else {
        let v = poseidon_sbox(&input[0]);
        cur.push(v);
        let mut i: usize = 1;
        while i < 9
            invariant
                1 <= i <= 9,
                input@.len() == 9,
                fe_vec_wf(input@),
                cur@.len() == i,
                fe_vec_wf(cur@),
                cur@[0].val() == sbox5(st[0]),
                forall|k: int| 1 <= k < i ==> (#[trigger] cur@[k]).val() == st[k],
                st =~= fe_vals(input@),
            decreases 9 - i,
        {
            let v = input[i];
            cur.push(v);
            i += 1;
        }
    }
    proof {
        assert(fe_vals(cur@) =~= sbox_layer(st, full));
    }
    let ghost sb = fe_vals(cur@);
    let mut out: Vec<Fe> = Vec::new();
    let mut i: usize = 0;
    while i < 9
        invariant
            i <= 9,
            c.wf(),
            round < c.r_f + c.r_p,
            cur@.len() == 9,
            fe_vec_wf(cur@),
            sb =~= fe_vals(cur@),
            out@.len() == i,
            fe_vec_wf(out@),
            forall|k: int| 0 <= k < i ==> (#[trigger] out@[k]).val() == (if with_constants {
                (dot_fold(c.mds@[k]@, sb, 9) + c.rounds@[round as int]@[k].val()) % fe_p()
            } else {
                dot_fold(c.mds@[k]@, sb, 9) % fe_p()
            }),
        decreases 9 - i,
    {
        let mut acc = Fe::zero();
        let mut j: usize = 0;
        while j < 9
            invariant
                j <= 9,
                i < 9,
                c.wf(),
                cur@.len() == 9,
                fe_vec_wf(cur@),
                sb =~= fe_vals(cur@),
                acc.wf(),
                acc.val() == dot_fold(c.mds@[i as int]@, sb, j as int),
            decreases 9 - j,
        {
            let term = fe_mul(&c.mds[i][j], &cur[j]);
            acc = fe_add(&acc, &term);
            j += 1;
        }
        if with_constants {
            acc = fe_add(&acc, &c.rounds[round][i]);
        } else {
            proof {
                vstd::arithmetic::div_mod::lemma_mod_twice(acc.val() as int, fe_p() as int);
            }
        }
        out.push(acc);
        i += 1;
    }
    proof {
        if with_constants {
            assert(fe_vals(out@) =~= round_spec(c, fe_vals(input@), round as int));
        } else {
            assert(fe_vals(out@) =~= plain_round_spec(c, fe_vals(input@), round as int));
        }
    }
    out
}

/// One round of the in-statement permutation.
pub fn poseidon_round(c: &PoseidonConstants, input: &Vec<Fe>, round: usize) -> (r: Vec<Fe>)
    requires
        c.wf(),
        round < c.r_f + c.r_p,
        input@.len() == 9,
        fe_vec_wf(input@),
    ensures
        r@.len() == 9,
        fe_vec_wf(r@),
        fe_vals(r@) =~= round_spec(c, fe_vals(input@), round as int),
{
    poseidon_round_generic(c, input, round, true)
}

/// The in-statement permutation hash: reduces eight field elements to one.
pub fn poseidon(c: &PoseidonConstants, input: &Vec<Fe>) -> (r: Fe)
    requires
        c.wf(),
        input@.len() == 8,
        fe_vec_wf(input@),
    ensures
        r.wf(),
        r.val() == poseidon_spec(c, fe_vals(input@)),
{
    let mut state: Vec<Fe> = Vec::new();
    let mut i: usize = 0;
    while i < 8
        invariant
            i <= 8,
            input@.len() == 8,
            fe_vec_wf(input@),
            state@.len() == i,
            state@ =~= input@.take(i as int),
        decreases 8 - i,
    {
        let v = input[i];
        state.push(v);
        i += 1;
    }
    state.push(Fe::zero());
    proof {
        assert(state@ =~= input@.push(state@[8]));
        assert(fe_vals(state@) =~= start_state(fe_vals(input@)));
    }
    let ghost st0 = fe_vals(state@);
    let total = c.r_f + c.r_p;
    let mut round: usize = 0;
    while round < total
        invariant
            round <= total,
            total == c.r_f + c.r_p,
            c.wf(),
            state@.len() == 9,
            fe_vec_wf(state@),
            fe_vals(state@) =~= rounds_spec(c, st0, round as int),
        decreases total - round,
    {
        state = poseidon_round(c, &state, round);
        round += 1;
    }
    state[0]
}

/// The standalone permutation hash over eight field elements, which runs the
/// same S-box and mixing schedule without round constants.
pub fn poseidon_hash(c: &PoseidonConstants, elems: &Vec<Fe>) -> (r: Fe)
    requires
        c.wf(),
        elems@.len() == 8,
        fe_vec_wf(elems@),
    ensures
        r.wf(),
        r.val() == poseidon_hash_spec(c, fe_vals(elems@)),
{
    let mut state: Vec<Fe> = Vec::new();
    let mut i: usize = 0;
    while i < 8
        invariant
            i <= 8,
            elems@.len() == 8,
            fe_vec_wf(elems@),
            state@.len() == i,
            state@ =~= elems@.take(i as int),
        decreases 8 - i,
    {
        let v = elems[i];
        state.push(v);
        i += 1;
    }
    state.push(Fe::zero());
    proof {
        assert(state@ =~= elems@.push(state@[8]));
        assert(fe_vals(state@) =~= start_state(fe_vals(elems@)));
    }
    let ghost st0 = fe_vals(state@);
    let total = c.r_f + c.r_p;
    let mut round: usize = 0;
    while round < total
        invariant
            round <= total,
            total == c.r_f + c.r_p,
            c.wf(),
            state@.len() == 9,
            fe_vec_wf(state@),
            fe_vals(state@) =~= plain_rounds_spec(c, st0, round as int),
        decreases total - round,
    {
        state = poseidon_round_generic(c, &state, round, false);
        round += 1;
    }
    state[0]
}


/// The hash-mode-agnostic compression of one element: the permutation hash
/// over the element and zeros, or the curve hash over its bits.
pub open spec fn crh_one_spec(c: &PoseidonConstants, use_poseidon: bool, a: nat) -> nat {
    if use_poseidon {
        poseidon_spec(c, seq![a, 0, 0, 0, 0, 0, 0, 0])
    } else {
        pedersen_x_of(63, nat_bits_le(a, 255))
    }
}

/// The hash-mode-agnostic compression of two elements.
pub open spec fn crh_elems_spec(c: &PoseidonConstants, use_poseidon: bool, a: nat, b: nat) -> nat {
    if use_poseidon {
        poseidon_spec(c, seq![a, b, 0, 0, 0, 0, 0, 0])
    } else {
        pedersen_x_of(63, nat_bits_le(a, 255) + nat_bits_le(b, 255))
    }
}

/// One element compressed under the selected hash mode.
pub fn crh_poseidon_or_pedersen_elem_with_zero(c: &PoseidonConstants, use_poseidon: bool, num: &Fe) -> (r: Fe)
    requires
        c.wf(),
        num.wf(),
    ensures
        r.wf(),
        r.val() == crh_one_spec(c, use_poseidon, num.val()),
{
    if use_poseidon {
        let zero = Fe::zero();
        let mut input: Vec<Fe> = Vec::new();
        input.push(*num);
        input.push(zero);
        input.push(zero);
        input.push(zero);
        input.push(zero);
        input.push(zero);
        input.push(zero);
        input.push(zero);
        proof {
            assert(fe_vals(input@) =~= seq![num.val(), 0nat, 0, 0, 0, 0, 0, 0]);
        }
        poseidon(c, &input)
    } else {
        let bits = num.to_bits_le();
        proof {
            lemma_bits_val_unique(bits@);
        }
        crh(&bits)
    }
}

/// Two elements compressed under the selected hash mode.
pub fn crh_poseidon_or_pedersen_elems(c: &PoseidonConstants, use_poseidon: bool, num1: &Fe, num2: &Fe) -> (r: Fe)
    requires
        c.wf(),
        num1.wf(),
        num2.wf(),
    ensures
        r.wf(),
        r.val() == crh_elems_spec(c, use_poseidon, num1.val(), num2.val()),
{
    if use_poseidon {
        let zero = Fe::zero();
        let mut input: Vec<Fe> = Vec::new();
        input.push(*num1);
        input.push(*num2);
        input.push(zero);
        input.push(zero);
        input.push(zero);
        input.push(zero);
        input.push(zero);
        input.push(zero);
        proof {
            assert(fe_vals(input@) =~= seq![num1.val(), num2.val(), 0nat, 0, 0, 0, 0, 0]);
        }
        poseidon(c, &input)
    } else {
        let mut bits = num1.to_bits_le();
        let mut rbits = num2.to_bits_le();
        let ghost lb = bits@;
        let ghost rb = rbits@;
        bits.append(&mut rbits);
        proof {
            assert(bits@ =~= lb + rb);
            lemma_bits_val_unique(lb);
            lemma_bits_val_unique(rb);
            assert(lb + rb =~= nat_bits_le(num1.val(), 255) + nat_bits_le(num2.val(), 255));
        }
        crh(&bits)
    }
}

} // verus!
