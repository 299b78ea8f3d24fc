//! The algebraic PRF: a round cipher keyed by a secret scalar. Each round
//! forms `t = sk + input + constant`, raises it to the power `2^exponent` by
//! repeated squaring, and outputs `t^(2^exponent - 1)` through the algebraic
//! inversion trick, which is unsatisfiable when `t` is zero; the final round
//! additionally adds the key to the output.
use vstd::prelude::*;
use vstd::arithmetic::div_mod::lemma_small_mod;
use crate::SynthesisError;
use crate::field::{Fe, fe_p, fe_add, fe_mul, fe_invert, fe_inv_val};
use crate::constants::MimcConstants;

verus! {

/// `t` raised to the power `2^k`, by `k` squarings.
pub open spec fn fe_pow2k(t: nat, k: nat) -> nat
    decreases k,
{
    if k == 0 {
        t % fe_p()
    } else {
        let s = fe_pow2k(t, (k - 1) as nat);
        (s * s) % fe_p()
    }
}

/// The round input sum `sk + input + constant`.
pub open spec fn round_t(sk: nat, input: nat, rc: nat) -> nat {
    (((sk + input) % fe_p()) + rc) % fe_p()
}

/// Whether a round's input sum is invertible.
pub open spec fn mimc_round_ok(sk: nat, input: nat, rc: nat) -> bool {
    round_t(sk, input, rc) != 0
}

/// The output of one round: `t^(2^e - 1)`, written as `t^(2^e)` times the
/// inverse of `t`.
pub open spec fn mimc_round_spec(sk: nat, input: nat, rc: nat, e: nat) -> nat {
    let t = round_t(sk, input, rc);
    (fe_pow2k(t, e) * fe_inv_val(t)) % fe_p()
}

/// The state after the first `n` rounds.
pub open spec fn mimc_rounds_spec(sk: nat, input: nat, table: Seq<Fe>, n: int, e: nat) -> nat
    decreases n,
{
    if n <= 0 {
        input
    } else {
        mimc_round_spec(sk, mimc_rounds_spec(sk, input, table, n - 1, e), table[n - 1].val(), e)
    }
}

/// Whether every one of the first `n` rounds has an invertible input sum.
pub open spec fn mimc_ok(sk: nat, input: nat, table: Seq<Fe>, n: int, e: nat) -> bool
    decreases n,
{
    if n <= 0 {
        true
    } else {
        mimc_ok(sk, input, table, n - 1, e) && mimc_round_ok(
            sk,
            mimc_rounds_spec(sk, input, table, n - 1, e),
            table[n - 1].val(),
        )
    }
}

/// The PRF output: all rounds but the last feed their output onward, and the
/// last round adds the key to its output.
pub open spec fn mimc_prf_spec(sk: nat, input: nat, table: Seq<Fe>, e: nat) -> nat {
    let pre = mimc_rounds_spec(sk, input, table, table.len() - 1, e);
    (mimc_round_spec(sk, pre, table[table.len() - 1].val(), e) + sk) % fe_p()
}

/// If all of the first `n` rounds are invertible, so are the first `m <= n`.
pub proof fn lemma_mimc_ok_monotone(sk: nat, input: nat, table: Seq<Fe>, m: int, n: int, e: nat)
    requires
        m <= n,
        mimc_ok(sk, input, table, n, e),
    ensures
        mimc_ok(sk, input, table, m, e),
    decreases n - m,
{
    if m < n {
        lemma_mimc_ok_monotone(sk, input, table, m, n - 1, e);
    }
}

/// Law: the PRF is a deterministic function of the key, the input and the
/// constant table; two applications to the same values give the same output.
pub proof fn lemma_prf_deterministic(
    sk1: nat,
    in1: nat,
    t1: Seq<Fe>,
    e1: nat,
    sk2: nat,
    in2: nat,
    t2: Seq<Fe>,
    e2: nat,
)
    requires
        sk1 == sk2,
        in1 == in2,
        t1 == t2,
        e1 == e2,
    ensures
        mimc_prf_spec(sk1, in1, t1, e1) == mimc_prf_spec(sk2, in2, t2, e2),
{
}

/// One PRF round without the final key addition.
pub fn mimc_round(sk: &Fe, input: &Fe, round_constant: &Fe, exponent: usize) -> (r: Result<
    Fe,
    SynthesisError,
>)
    requires
        sk.wf(),
        input.wf(),
        round_constant.wf(),
        exponent >= 1,
    ensures
        r is Ok <==> mimc_round_ok(sk.val(), input.val(), round_constant.val()),
        r matches Ok(o) ==> o.wf() && o.val() == mimc_round_spec(
            sk.val(),
            input.val(),
            round_constant.val(),
            exponent as nat,
        ),
        r is Err ==> r == Err::<Fe, SynthesisError>(SynthesisError::DivisionByZero),
{
    let t = fe_add(&fe_add(sk, input), round_constant);
    proof {
        lemma_small_mod(t.val(), fe_p());
        assert(fe_pow2k(t.val(), 0) == t.val());
    }
    let mut square = fe_mul(&t, &t);
    let mut i: usize = 1;
    while i < exponent
        invariant
            1 <= i <= exponent,
            square.wf(),
            square.val() == fe_pow2k(t.val(), i as nat),
        decreases exponent - i,
    {
        square = fe_mul(&square, &square);
        i += 1;
    }
    match fe_invert(&t) {
        None => Err(SynthesisError::DivisionByZero),
        Some(inv) => Ok(fe_mul(&square, &inv)),
    }
}

/// The full PRF over one constant table.
pub fn mimc_prf(mc: &MimcConstants, table: &Vec<Fe>, sk: &Fe, input: &Fe) -> (r: Result<
    Fe,
    SynthesisError,
>)
    requires
        mc.wf(),
        mc.table_wf(table@),
        sk.wf(),
        input.wf(),
    ensures
        r is Ok <==> mimc_ok(sk.val(), input.val(), table@, table@.len() as int, mc.exponent as nat),
        r matches Ok(o) ==> o.wf() && o.val() == mimc_prf_spec(
            sk.val(),
            input.val(),
            table@,
            mc.exponent as nat,
        ),
        r is Err ==> r == Err::<Fe, SynthesisError>(SynthesisError::DivisionByZero),
{
    let ghost e = mc.exponent as nat;
    let ghost tbl = table@;
    let n = mc.num_rounds;
    let mut cur = *input;
    let mut i: usize = 0;
    while i < n - 1
        invariant
            i <= n - 1,
            n == mc.num_rounds,
            n >= 1,
            mc.wf(),
            mc.table_wf(table@),
            tbl =~= table@,
            e == mc.exponent as nat,
            sk.wf(),
            input.wf(),
            cur.wf(),
            cur.val() == mimc_rounds_spec(sk.val(), input.val(), tbl, i as int, e),
            mimc_ok(sk.val(), input.val(), tbl, i as int, e),
        decreases n - 1 - i,
    {
        match mimc_round(sk, &cur, &table[i], mc.exponent) {
            Ok(next) => {
                cur = next;
            },
            Err(err) => {
                proof {
                    lemma_mimc_not_ok(sk.val(), input.val(), tbl, i as int, tbl.len() as int, e);
                }
                return Err(err);
            },
        }
        i += 1;
    }
    // the final round, with the key added to the output
    match mimc_round(sk, &cur, &table[n - 1], mc.exponent) {
        Ok(o) => {
            let out = fe_add(&o, sk);
            Ok(out)
        },
        Err(err) => {
            proof {
                lemma_mimc_not_ok(sk.val(), input.val(), tbl, (n - 1) as int, tbl.len() as int, e);
            }
            Err(err)
        },
    }
}

/// A round with a non-invertible input sum makes the whole run fail.
proof fn lemma_mimc_not_ok(sk: nat, input: nat, table: Seq<Fe>, i: int, n: int, e: nat)
    requires
        0 <= i < n,
        mimc_ok(sk, input, table, i, e),
        !mimc_round_ok(sk, mimc_rounds_spec(sk, input, table, i, e), table[i].val()),
    ensures
        !mimc_ok(sk, input, table, n, e),
{
    if mimc_ok(sk, input, table, n, e) {
        lemma_mimc_ok_monotone(sk, input, table, i + 1, n, e);
    }
}

} // verus!
