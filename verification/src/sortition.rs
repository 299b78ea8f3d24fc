//! The binomial sortition sampler: for each value-bit position an independent
//! eighty-bit pseudorandom stream is compared against a sorted table of
//! per-bit thresholds, by one of two interchangeable strategies — a regular
//! scan of every threshold, and a tournament that selects one threshold per
//! stage by the previous decisions — and the per-position counts, masked by
//! the value bits, are summed into the number of tickets won.
use vstd::prelude::*;
use vstd::arithmetic::power2::*;
use crate::SynthesisError;
use crate::field::Fe;
use crate::bits::{bits_val, bit1, lemma_bits_val_bound, lemma_bits_slice_val};
use crate::compare::{above_bound, assignment_not_leq_fixed};
use crate::constants::{Constants, BinomialConstants, table_sorted, table_weight, total_weight};
use crate::hashes::fe_vals;
use crate::prf::{mimc_prf, mimc_prf_spec, mimc_ok};

verus! {

/// The count of thresholds among the first `n` of a table that the random
/// value clears, each decided against the bound one below the threshold.
pub open spec fn sel_count(table: Seq<u128>, randv: nat, n: int) -> nat
    decreases n,
{
    if n <= 0 {
        0
    } else {
        sel_count(table, randv, n - 1) + bit1(above_bound(randv, (table[n - 1] - 1) as nat))
    }
}

/// The count of bounds among the first `n` that the random value clears.
pub open spec fn count_above(bounds: Seq<u128>, randv: nat, n: int) -> nat
    decreases n,
{
    if n <= 0 {
        0
    } else {
        count_above(bounds, randv, n - 1) + bit1(above_bound(randv, bounds[n - 1] as nat))
    }
}

/// The sorted threshold table turned into bounds and padded to a fixed width
/// with the largest bound of the precision, which no stream clears.
pub open spec fn padded_bounds(table: Seq<u128>, width: int) -> Seq<u128> {
    Seq::new(
        width as nat,
        |j: int|
            if j < table.len() {
                (table[j] - 1) as u128
            } else {
                0xffffffffffffffffffff
            },
    )
}

pub proof fn lemma_count_le_n(bounds: Seq<u128>, randv: nat, n: int)
    ensures
        count_above(bounds, randv, n) <= (if n <= 0 {
            0int
        } else {
            n
        }),
    decreases n,
{
    if n > 0 {
        lemma_count_le_n(bounds, randv, n - 1);
    }
}

pub proof fn lemma_count_monotone(bounds: Seq<u128>, randv: nat, m: int, n: int)
    requires
        m <= n,
    ensures
        count_above(bounds, randv, m) <= count_above(bounds, randv, n),
    decreases n - m,
{
    if m < n {
        lemma_count_monotone(bounds, randv, m, n - 1);
    }
}

/// If the random value clears every bound among the first `m`, it is counted
/// `m` times there.
pub proof fn lemma_count_prefix_true(bounds: Seq<u128>, randv: nat, m: int)
    requires
        0 <= m,
        forall|j: int| 0 <= j < m ==> above_bound(randv, (#[trigger] bounds[j]) as nat),
    ensures
        count_above(bounds, randv, m) == m,
    decreases m,
{
    if m > 0 {
        lemma_count_prefix_true(bounds, randv, m - 1);
    }
}

/// Bounds that the random value does not clear add nothing to the count.
pub proof fn lemma_count_tail_false(bounds: Seq<u128>, randv: nat, m: int, n: int)
    requires
        0 <= m <= n,
        forall|j: int| m <= j < n ==> !above_bound(randv, (#[trigger] bounds[j]) as nat),
    ensures
        count_above(bounds, randv, n) == count_above(bounds, randv, m),
    decreases n - m,
{
    if m < n {
        lemma_count_tail_false(bounds, randv, m, n - 1);
    }
}

/// Counting over bounds equal to the thresholds less one is the threshold
/// count.
pub proof fn lemma_count_is_sel(table: Seq<u128>, bounds: Seq<u128>, randv: nat, n: int)
    requires
        0 <= n <= table.len(),
        n <= bounds.len(),
        forall|j: int| 0 <= j < n ==> (#[trigger] bounds[j]) as nat == (table[j] - 1) as nat,
    ensures
        count_above(bounds, randv, n) == sel_count(table, randv, n),
    decreases n,
{
    if n > 0 {
        lemma_count_is_sel(table, bounds, randv, n - 1);
    }
}

/// Law: the tournament's padded, decremented bound array counts exactly the
/// thresholds of the table that the regular scan counts — the two
/// binomial-sampling strategies agree on every table and every stream of the
/// precision, whatever the padding width.
pub proof fn lemma_tournament_equivalence(table: Seq<u128>, width: int, randv: nat)
    requires
        table_sorted(table),
        randv < pow2(80),
        table.len() <= width,
    ensures
        count_above(padded_bounds(table, width), randv, width) == sel_count(
            table,
            randv,
            table.len() as int,
        ),
{
    let bounds = padded_bounds(table, width);
    assert(pow2(80) == 0x100000000000000000000) by {
        lemma2_to64();
        lemma2_to64_rest();
        lemma_pow2_adds(64, 16);
    }
    assert forall|j: int| table.len() <= j < width implies !above_bound(
        randv,
        (#[trigger] bounds[j]) as nat,
    ) by {
        assert(bounds[j] == 0xffffffffffffffffffff);
    }
    lemma_count_tail_false(bounds, randv, table.len() as int, width);
    lemma_count_is_sel(table, bounds, randv, table.len() as int);
}

/// One position's largest possible contribution is below the total weight.
proof fn lemma_weight_le_total(c: &BinomialConstants, i: int, n: int)
    requires
        0 <= i < n,
    ensures
        table_weight(c.base@[i], c.thresholds@[i]@) <= total_weight(c, n),
    decreases n,
{
    if i < n - 1 {
        lemma_weight_le_total(c, i, n - 1);
    }
}

/// The count never exceeds the table's length.
proof fn lemma_sel_count_le(table: Seq<u128>, randv: nat, n: int)
    ensures
        sel_count(table, randv, n) <= (if n <= 0 {
            0int
        } else {
            n
        }),
    decreases n,
{
    if n > 0 {
        lemma_sel_count_le(table, randv, n - 1);
    }
}

/// The regular strategy: the base count plus one comparison per threshold.
pub fn sub_binomial_regular(c: &BinomialConstants, idx: usize, rand_bits: &Vec<bool>) -> (r: u64)
    requires
        c.wf(),
        idx < 60,
        rand_bits@.len() == 80,
    ensures
        r as nat == c.base@[idx as int] as nat + sel_count(
            c.thresholds@[idx as int]@,
            bits_val(rand_bits@),
            c.thresholds@[idx as int]@.len() as int,
        ),
{
    let ghost rv = bits_val(rand_bits@);
    let base = c.base[idx];
    let n = c.thresholds[idx].len();
    proof {
        lemma_weight_le_total(c, idx as int, 60);
        assert(rand_bits@.take(80) =~= rand_bits@);
    }
    let mut acc: u64 = base;
    let mut j: usize = 0;
    while j < n
        invariant
            j <= n,
            c.wf(),
            idx < 60,
            n == c.thresholds@[idx as int]@.len(),
            base == c.base@[idx as int],
            rand_bits@.len() == 80,
            rv == bits_val(rand_bits@),
            rv == bits_val(rand_bits@.take(80)),
            acc as nat == base as nat + sel_count(c.thresholds@[idx as int]@, rv, j as int),
            n > 0 ==> base as nat + n < 2048,
        decreases n - j,
    {
        let t = c.thresholds[idx][j];
        proof {
            assert(table_sorted(c.thresholds@[idx as int]@));
            assert(1 <= c.thresholds@[idx as int]@[j as int]);
            lemma_sel_count_le(c.thresholds@[idx as int]@, rv, j as int);
        }
        let b = assignment_not_leq_fixed(rand_bits, t - 1, 80);
        if b {
            acc = acc + 1;
        }
        j += 1;
    }
    acc
}

/// The smallest power of two whose tree holds the table: returns the
/// capacity and its exponent, the number of tournament stages.
fn tree_capacity(n: usize) -> (r: (usize, usize))
    requires
        n < 2048,
    ensures
        r.0 as nat == pow2(r.1 as nat),
        n <= r.0 - 1,
        r.0 <= 4096,
        r.1 <= 12,
{
    let mut cap: usize = 1;
    let mut l: usize = 0;
    proof {
        lemma2_to64();
    }
    while cap - 1 < n
        invariant
            1 <= cap <= 4096,
            cap as nat == pow2(l as nat),
            l <= 12,
            n < 2048,
            l == 12 ==> cap - 1 >= n,
        decreases 4096 - cap,
    {
        proof {
            lemma2_to64();
            if l >= 11 {
                lemma_pow2_strictly_increases(11, l as nat);
            }
            assert(cap <= 2048) by {
                if cap > 2048 {
                    assert(pow2(l as nat) > 2048);
                    if l <= 11 {
                        lemma_pow2_strictly_increases(l as nat, 12);
                        lemma2_to64_rest();
                    }
                }
            }
            lemma_pow2_unfold((l + 1) as nat);
        }
        cap = cap * 2;
        l += 1;
    }
    (cap, l)
}

/// The tournament strategy: the thresholds, less one, are packed into a
/// balanced selection network padded with the largest bound; each stage
/// compares the stream against the bound selected by the previous decisions,
/// and the decision bits assemble the count of cleared thresholds, added to
/// the base count. It returns the same count as the regular strategy.
pub fn sub_binomial_binary_search(c: &BinomialConstants, idx: usize, rand_bits: &Vec<bool>) -> (r:
    u64)
    requires
        c.wf(),
        idx < 60,
        rand_bits@.len() == 80,
    ensures
        r as nat == c.base@[idx as int] as nat + sel_count(
            c.thresholds@[idx as int]@,
            bits_val(rand_bits@),
            c.thresholds@[idx as int]@.len() as int,
        ),
{
    let ghost rv = bits_val(rand_bits@);
    let ghost tbl = c.thresholds@[idx as int]@;
    let base = c.base[idx];
    let n = c.thresholds[idx].len();
    proof {
        lemma_weight_le_total(c, idx as int, 60);
        assert(rand_bits@.take(80) =~= rand_bits@);
        lemma_bits_val_bound(rand_bits@);
        assert(pow2(80) == 0x100000000000000000000) by {
            lemma2_to64();
            lemma2_to64_rest();
            lemma_pow2_adds(64, 16);
        }
    }
    let (cap, _stages) = tree_capacity(n);
    let mut bounds: Vec<u128> = Vec::new();
    let mut j: usize = 0;
    while j < n
        invariant
            j <= n,
            c.wf(),
            idx < 60,
            n == tbl.len(),
            tbl =~= c.thresholds@[idx as int]@,
            bounds@.len() == j,
            forall|k: int| 0 <= k < j ==> (#[trigger] bounds@[k]) as nat == (tbl[k] - 1) as nat,
        decreases n - j,
    {
        proof {
            assert(table_sorted(tbl));
            assert(1 <= tbl[j as int]);
        }
        let t = c.thresholds[idx][j];
        bounds.push(t - 1);
        j += 1;
    }
    while bounds.len() < cap - 1
        invariant
            c.wf(),
            idx < 60,
            n == tbl.len(),
            tbl =~= c.thresholds@[idx as int]@,
            n <= bounds@.len() <= cap - 1,
            cap >= 1,
            forall|k: int| 0 <= k < n ==> (#[trigger] bounds@[k]) as nat == (tbl[k] - 1) as nat,
            forall|k: int| n <= k < bounds@.len() ==> (#[trigger] bounds@[k])
                == 0xffffffffffffffffffff,
        decreases cap - 1 - bounds@.len(),
    {
        bounds.push(0xffffffffffffffffffff);
    }
    let width = cap - 1;
    proof {
        assert(bounds@ =~= padded_bounds(tbl, width as int));
        assert(table_sorted(tbl));
        // the padded bound array is sorted
        assert forall|k1: int, k2: int| 0 <= k1 <= k2 < width implies (#[trigger] bounds@[k1])
            <= (#[trigger] bounds@[k2]) by {
            if k2 < n {
                assert(tbl[k1] <= tbl[k2]);
            } else if k1 < n {
                assert((tbl[k1] as nat) <= pow2(80));
            }
        }
        // every bound fits the precision
        assert forall|k: int| 0 <= k < width implies ((#[trigger] bounds@[k]) as nat) < pow2(
            80,
        ) by {
            if k < n {
                assert((tbl[k] as nat) <= pow2(80));
            }
        }
        lemma_count_le_n(bounds@, rv, width as int);
    }
    let ghost rank = count_above(bounds@, rv, width as int);
    let mut lo: usize = 0;
    let mut step: usize = cap / 2;
    let ghost mut ke: nat = if _stages > 0 {
        (_stages - 1) as nat
    } else {
        0
    };
    proof {
        lemma2_to64();
        if _stages > 0 {
            lemma_pow2_unfold(_stages as nat);
        }
    }
    while step > 0
        invariant
            c.wf(),
            rand_bits@.len() == 80,
            rv == bits_val(rand_bits@),
            rv == bits_val(rand_bits@.take(80)),
            rv < pow2(80),
            bounds@.len() == width,
            width == cap - 1,
            cap >= 1,
            rank == count_above(bounds@, rv, width as int),
            forall|k1: int, k2: int|
                0 <= k1 <= k2 < width ==> (#[trigger] bounds@[k1]) <= (#[trigger] bounds@[k2]),
            forall|k: int| 0 <= k < width ==> ((#[trigger] bounds@[k]) as nat) < pow2(80),
            step > 0 ==> lo + 2 * step <= cap && lo <= rank <= lo + 2 * step - 1,
            step > 0 ==> step as nat == pow2(ke),
            step == 0 ==> lo == rank,
            lo <= width,
        decreases step,
    {
        proof {
            if ke > 0 {
                lemma_pow2_unfold(ke);
            } else {
                lemma2_to64();
                assert(step == 1);
            }
        }
        let mid = lo + step - 1;
        let b = assignment_not_leq_fixed(rand_bits, bounds[mid], 80);
        proof {
            if b {
                // every bound up to the middle is cleared
                assert forall|j2: int| 0 <= j2 <= mid implies above_bound(
                    rv,
                    (#[trigger] bounds@[j2]) as nat,
                ) by {
                    assert(bounds@[j2] <= bounds@[mid as int]);
                }
                lemma_count_prefix_true(bounds@, rv, mid + 1);
                lemma_count_monotone(bounds@, rv, mid + 1, width as int);
            } else {
                // no bound from the middle on is cleared
                assert forall|j2: int| mid <= j2 < width implies !above_bound(
                    rv,
                    (#[trigger] bounds@[j2]) as nat,
                ) by {
                    assert(bounds@[mid as int] <= bounds@[j2]);
                }
                lemma_count_tail_false(bounds@, rv, mid as int, width as int);
                lemma_count_le_n(bounds@, rv, mid as int);
            }
        }
        if b {
            lo = lo + step;
        }
        step = step / 2;
        proof {
            if ke > 0 {
                ke = (ke - 1) as nat;
            }
        }
    }
    proof {
        lemma_tournament_equivalence(tbl, width as int, rv);
        lemma_sel_count_le(tbl, rv, n as int);
    }
    base + lo as u64
}

/// The value of the eighty-bit pseudorandom stream at one bit position:
/// three streams are sliced from each PRF output.
pub open spec fn stream_val(c: &Constants, sk: nat, h: nat, i: int) -> nat {
    let out = mimc_prf_spec(sk, h, c.mimc.prf_sel@[i / 3]@, c.mimc.exponent as nat);
    (out / pow2((80 * (i % 3)) as nat)) % pow2(80)
}

/// Whether every selection PRF instance runs without a zero round sum.
pub open spec fn sel_prfs_ok(c: &Constants, sk: nat, h: nat) -> bool {
    forall|i: int|
        0 <= i < 20 ==> mimc_ok(
            sk,
            h,
            (#[trigger] c.mimc.prf_sel@[i])@,
            c.mimc.prf_sel@[i]@.len() as int,
            c.mimc.exponent as nat,
        )
}

/// One bit position's contribution: the base count plus the cleared
/// thresholds, masked to zero unless the value bit is set or the table is
/// empty.
pub open spec fn position_count(
    c: &Constants,
    value_bits: Seq<bool>,
    sk: nat,
    h: nat,
    i: int,
) -> nat {
    if value_bits[i] && c.binomial.thresholds@[i]@.len() > 0 {
        c.binomial.base@[i] as nat + sel_count(
            c.binomial.thresholds@[i]@,
            stream_val(c, sk, h, i),
            c.binomial.thresholds@[i]@.len() as int,
        )
    } else {
        0
    }
}

/// The number of tickets won: the masked contributions of the first `n` bit
/// positions.
pub open spec fn num_selections_spec(
    c: &Constants,
    value_bits: Seq<bool>,
    sk: nat,
    h: nat,
    n: int,
) -> nat
    decreases n,
{
    if n <= 0 {
        0
    } else {
        num_selections_spec(c, value_bits, sk, h, n - 1) + position_count(
            c,
            value_bits,
            sk,
            h,
            n - 1,
        )
    }
}

/// Law: the number of selections is monotone in the value's bit pattern —
/// with the tables and the streams held fixed, setting more value bits can
/// only add non-negative per-bit contributions.
pub proof fn lemma_num_selections_monotone(
    c: &Constants,
    bits1: Seq<bool>,
    bits2: Seq<bool>,
    sk: nat,
    h: nat,
    n: int,
)
    requires
        forall|i: int| 0 <= i < n ==> (bits1[i] ==> bits2[i]),
    ensures
        num_selections_spec(c, bits1, sk, h, n) <= num_selections_spec(c, bits2, sk, h, n),
    decreases n,
{
    if n > 0 {
        lemma_num_selections_monotone(c, bits1, bits2, sk, h, n - 1);
    }
}

/// A prefix of positions contributes at most the total weight of the tables.
proof fn lemma_num_selections_le_weight(
    c: &Constants,
    value_bits: Seq<bool>,
    sk: nat,
    h: nat,
    n: int,
)
    ensures
        num_selections_spec(c, value_bits, sk, h, n) <= total_weight(&c.binomial, n),
    decreases n,
{
    if n > 0 {
        lemma_num_selections_le_weight(c, value_bits, sk, h, n - 1);
        lemma_sel_count_le(
            c.binomial.thresholds@[n - 1]@,
            stream_val(c, sk, h, n - 1),
            c.binomial.thresholds@[n - 1]@.len() as int,
        );
    }
}

/// The number of tickets won by the coin this round: twenty PRF outputs are
/// sliced into sixty eighty-bit streams, each bit position's table is
/// sampled by the cheaper strategy, and the masked counts are summed. The
/// count always fits the eleven-bit range check.
pub fn calc_num_selections(c: &Constants, value_bits: &Vec<bool>, hash: &Fe, a_sk: &Fe) -> (r:
    Result<u64, SynthesisError>)
    requires
        c.wf(),
        value_bits@.len() >= 60,
        hash.wf(),
        a_sk.wf(),
    ensures
        r is Ok <==> sel_prfs_ok(c, a_sk.val(), hash.val()),
        r matches Ok(cnt) ==> cnt as nat == num_selections_spec(
            c,
            value_bits@,
            a_sk.val(),
            hash.val(),
            60,
        ) && cnt < 2048,
        r is Err ==> r == Err::<u64, SynthesisError>(SynthesisError::DivisionByZero),
{
    let ghost sk = a_sk.val();
    let ghost h = hash.val();
    let mut streams: Vec<Vec<bool>> = Vec::new();
    let mut i: usize = 0;
    while i < 20
        invariant
            i <= 20,
            c.wf(),
            hash.wf(),
            a_sk.wf(),
            sk == a_sk.val(),
            h == hash.val(),
            streams@.len() == 3 * i,
            forall|s: int|
                0 <= s < 3 * i ==> (#[trigger] streams@[s])@.len() == 80 && bits_val(
                    streams@[s]@,
                ) == stream_val(c, sk, h, s),
            forall|s: int|
                0 <= s < i ==> mimc_ok(
                    sk,
                    h,
                    (#[trigger] c.mimc.prf_sel@[s])@,
                    c.mimc.prf_sel@[s]@.len() as int,
                    c.mimc.exponent as nat,
                ),
        decreases 20 - i,
    {
        let out = match mimc_prf(&c.mimc, &c.mimc.prf_sel[i], a_sk, hash) {
            Ok(out) => out,
            Err(e) => {
                proof {
                    assert(!sel_prfs_ok(c, sk, h));
                }
                return Err(e);
            },
        };
        let out_bits = out.to_bits_le();
        let mut k: usize = 0;
        while k < 3
            invariant
                k <= 3,
                i < 20,
                c.wf(),
                out_bits@.len() == 255,
                bits_val(out_bits@) == mimc_prf_spec(
                    sk,
                    h,
                    c.mimc.prf_sel@[i as int]@,
                    c.mimc.exponent as nat,
                ),
                streams@.len() == 3 * i + k,
                forall|s: int|
                    0 <= s < 3 * i + k ==> (#[trigger] streams@[s])@.len() == 80 && bits_val(
                        streams@[s]@,
                    ) == stream_val(c, sk, h, s),
            decreases 3 - k,
        {
            let mut sub: Vec<bool> = Vec::new();
            let start = 80 * k;
            let mut b: usize = 0;
            while b < 80
                invariant
                    b <= 80,
                    start == 80 * k,
                    k < 3,
                    out_bits@.len() == 255,
                    sub@.len() == b,
                    sub@ =~= out_bits@.subrange(start as int, start + b),
                decreases 80 - b,
            {
                sub.push(out_bits[start + b]);
                proof {
                    assert(out_bits@.subrange(start as int, start + b + 1) =~= out_bits@.subrange(
                        start as int,
                        start + b,
                    ).push(out_bits@[start + b]));
                }
                b += 1;
            }
            proof {
                lemma_bits_slice_val(out_bits@, start as int, start + 80);
                assert((3 * i + k) / 3 == i && (3 * i + k) % 3 == k) by (nonlinear_arith)
                    requires
                        0 <= k < 3,
                        0 <= i,
                ;
            }
            streams.push(sub);
            k += 1;
        }
        i += 1;
    }
    let mut total: u64 = 0;
    let mut i: usize = 0;
    proof {
        lemma_total_weight_monotone(&c.binomial, 0, 60);
    }
    while i < 60
        invariant
            i <= 60,
            c.wf(),
            streams@.len() == 60,
            value_bits@.len() >= 60,
            forall|s: int|
                0 <= s < 60 ==> (#[trigger] streams@[s])@.len() == 80 && bits_val(streams@[s]@)
                    == stream_val(c, sk, h, s),
            total as nat == num_selections_spec(c, value_bits@, sk, h, i as int),
            total as nat <= total_weight(&c.binomial, i as int),
        decreases 60 - i,
    {
        let tlen = c.binomial.thresholds[i].len();
        proof {
            lemma_total_weight_monotone(&c.binomial, i as int, 60);
            lemma_total_weight_monotone(&c.binomial, i + 1, 60);
            lemma_sel_count_le(
                c.binomial.thresholds@[i as int]@,
                stream_val(c, sk, h, i as int),
                tlen as int,
            );
        }
        if tlen > 0 {
            let cost_regular = 163 * tlen;
            let (cap, stages) = tree_capacity_for(tlen, c, i);
            let cost_advanced_plus = 2 * cap + 403 * stages;
            let cnt = if cost_regular + 241 < cost_advanced_plus {
                sub_binomial_regular(&c.binomial, i, &streams[i])
            } else {
                sub_binomial_binary_search(&c.binomial, i, &streams[i])
            };
            if value_bits[i] {
                total = total + cnt;
            }
        }
        i += 1;
    }
    proof {
        lemma_num_selections_le_weight(c, value_bits@, sk, h, 60);
    }
    Ok(total)
}

/// The total weight over a prefix never shrinks as the prefix grows.
proof fn lemma_total_weight_monotone(c: &BinomialConstants, m: int, n: int)
    requires
        m <= n,
    ensures
        total_weight(c, m) <= total_weight(c, n),
    decreases n - m,
{
    if m < n {
        lemma_total_weight_monotone(c, m, n - 1);
    }
}

/// The tree capacity of one position's table, with the bound needed by the
/// capacity search taken from the table's weight.
fn tree_capacity_for(tlen: usize, c: &Constants, i: usize) -> (r: (usize, usize))
    requires
        c.wf(),
        i < 60,
        tlen == c.binomial.thresholds@[i as int]@.len(),
        tlen > 0,
    ensures
        r.0 as nat == pow2(r.1 as nat),
        tlen <= r.0 - 1,
        r.0 <= 4096,
        r.1 <= 12,
{
    proof {
        lemma_weight_le_total(&c.binomial, i as int, 60);
    }
    tree_capacity(tlen)
}

} // verus!
