//! Bit-vector comparison gadgets: fixed- and variable-bound less-or-equal, in
//! an enforcing form that fails when the relation does not hold, and a
//! deciding form that returns the comparison result as a value.
use vstd::prelude::*;
use vstd::arithmetic::power2::*;
use crate::SynthesisError;
use crate::bits::{bits_val, lemma_bits_val_bound, lemma_bits_val_take, lemma_bits_val_push};

verus! {

/// The number of bits of a value: zero for zero, one more than the bit length
/// of the half otherwise.
pub open spec fn bit_len(n: nat) -> nat
    decreases n,
{
    if n == 0 {
        0
    } else {
        1 + bit_len(n / 2)
    }
}

/// The decision of the fixed-bound comparison gadget: true above the bound,
/// and unconditionally true for the degenerate zero bound.
pub open spec fn above_bound(v: nat, c: nat) -> bool {
    c == 0 || v > c
}

/// The value of the `n` low bits of a bit string, as a machine word.
pub fn bits_value_u128(bits: &Vec<bool>, n: usize) -> (r: u128)
    requires
        n <= 128,
        bits@.len() >= n,
    ensures
        r as nat == bits_val(bits@.take(n as int)),
{
    let mut acc: u128 = 0;
    let mut i: usize = n;
    proof {
        assert(bits@.subrange(n as int, n as int) =~= Seq::<bool>::empty());
        lemma2_to64();
    }
    while i > 0
        invariant
            i <= n <= 128,
            bits@.len() >= n,
            acc as nat == bits_val(bits@.subrange(i as int, n as int)),
            (acc as nat) < pow2((n - i) as nat),
        decreases i,
    {
        proof {
            lemma_pow2_unfold((n - i + 1) as nat);
            lemma_pow2_le_max128((n - i + 1) as nat);
        }
        i -= 1;
        let b: u128 = if bits[i] {
            1
        } else {
            0
        };
        proof {
            assert(bits@.subrange(i as int, n as int).skip(1) =~= bits@.subrange(
                i + 1,
                n as int,
            ));
            assert(bits@.subrange(i as int, n as int)[0] == bits@[i as int]);
        }
        acc = 2 * acc + b;
    }
    proof {
        assert(bits@.subrange(0, n as int) =~= bits@.take(n as int));
    }
    acc
}

/// Powers of two up to the word size do not overflow the word.
proof fn lemma_pow2_le_max128(n: nat)
    requires
        n <= 128,
    ensures
        pow2(n) <= 0x100000000000000000000000000000000,
        n == 128 ==> pow2(n) == 0x100000000000000000000000000000000,
{
    lemma2_to64_rest();
    lemma_pow2_adds(64, 64);
    if n < 128 {
        lemma_pow2_strictly_increases(n, 128);
    }
}

/// The bit length of a machine word.
pub fn bit_len_u128(m: u128) -> (r: usize)
    ensures
        r as nat == bit_len(m as nat),
        r <= 128,
{
    let mut x = m;
    let mut len: usize = 0;
    proof {
        lemma_pow2_le_max128(128);
        lemma_bit_len_bound(m as nat, 128);
    }
    while x > 0
        invariant
            bit_len(m as nat) == len + bit_len(x as nat),
            len + bit_len(x as nat) <= 128,
        decreases x,
    {
        x = x / 2;
        len += 1;
    }
    len
}

/// A value below a power of two has at most that many bits.
pub proof fn lemma_bit_len_bound(n: nat, k: nat)
    requires
        n < pow2(k),
    ensures
        bit_len(n) <= k,
    decreases n,
{
    if n > 0 {
        if k == 0 {
            lemma2_to64();
        } else {
            lemma_pow2_unfold(k);
            lemma_bit_len_bound(n / 2, (k - 1) as nat);
        }
    }
}

/// A value is below the power of two at its bit length.
pub proof fn lemma_bit_len_val(n: nat)
    ensures
        n < pow2(bit_len(n)),
        n > 0 ==> pow2((bit_len(n) - 1) as nat) <= n,
    decreases n,
{
    if n == 0 {
        lemma2_to64();
    } else {
        lemma_bit_len_val(n / 2);
        lemma_pow2_unfold(bit_len(n));
        if n / 2 > 0 {
            lemma_pow2_unfold((bit_len(n) - 1) as nat);
        } else {
            lemma2_to64();
        }
    }
}

/// If two equal-length bit strings agree above position `i` and differ at
/// `i`, the one set at `i` is the larger.
pub proof fn lemma_bits_val_msb(l: Seq<bool>, r: Seq<bool>, i: int)
    requires
        l.len() == r.len(),
        0 <= i < l.len(),
        forall|j: int| i < j < l.len() ==> l[j] == r[j],
        l[i],
        !r[i],
    ensures
        bits_val(l) > bits_val(r),
{
    lemma_bits_val_take(l, i + 1);
    lemma_bits_val_take(r, i + 1);
    assert(l.skip(i + 1) =~= r.skip(i + 1));
    assert(l.take(i + 1) =~= l.take(i).push(l[i]));
    assert(r.take(i + 1) =~= r.take(i).push(r[i]));
    lemma_bits_val_push(l.take(i), l[i]);
    lemma_bits_val_push(r.take(i), r[i]);
    lemma_bits_val_bound(r.take(i));
    assert(bits_val(l.take(i + 1)) >= pow2(i as nat));
    assert(bits_val(r.take(i + 1)) < pow2(i as nat));
}

/// Whether the first bit string holds the strictly larger value, decided from
/// the most significant differing position.
pub fn bits_gt(l: &Vec<bool>, r: &Vec<bool>) -> (res: bool)
    requires
        l@.len() == r@.len(),
    ensures
        res == (bits_val(l@) > bits_val(r@)),
{
    let n = l.len();
    let mut i: usize = n;
    while i > 0
        invariant
            i <= n,
            n == l@.len() == r@.len(),
            forall|j: int| i <= j < n ==> l@[j] == r@[j],
        decreases i,
    {
        i -= 1;
        if l[i] != r[i] {
            proof {
                if l@[i as int] {
                    lemma_bits_val_msb(l@, r@, i as int);
                } else {
                    lemma_bits_val_msb(r@, l@, i as int);
                }
            }
            return l[i];
        }
    }
    proof {
        assert(l@ =~= r@);
    }
    false
}

/// The enforcing variable-bound gadget: succeeds exactly when the first
/// operand is at most the second, bitwise-lexicographically, which is the
/// numeric order of the two bit strings.
pub fn leq_not_fixed(left_bits: &Vec<bool>, right_bits: &Vec<bool>) -> (r: Result<
    (),
    SynthesisError,
>)
    requires
        left_bits@.len() == right_bits@.len(),
    ensures
        r is Ok <==> bits_val(left_bits@) <= bits_val(right_bits@),
        r is Err ==> r == Err::<(), SynthesisError>(SynthesisError::Unsatisfiable),
{
    if bits_gt(left_bits, right_bits) {
        Err(SynthesisError::Unsatisfiable)
    } else {
        Ok(())
    }
}

/// The deciding variable-bound gadget: the comparison result as a value,
/// true exactly when the first operand is strictly above the second.
pub fn assignment_not_leq_not_fixed(left_bits: &Vec<bool>, right_bits: &Vec<bool>) -> (r: bool)
    requires
        left_bits@.len() == right_bits@.len(),
    ensures
        r == (bits_val(left_bits@) > bits_val(right_bits@)),
{
    bits_gt(left_bits, right_bits)
}

/// The deciding fixed-bound gadget: true exactly when the witnessed window is
/// strictly above the constant bound, and unconditionally true for a zero
/// bound.
pub fn assignment_not_leq_fixed(left_bits: &Vec<bool>, value: u128, num_bits: usize) -> (r: bool)
    requires
        num_bits <= 128,
        left_bits@.len() >= num_bits,
        (value as nat) < pow2(num_bits as nat),
    ensures
        r == above_bound(bits_val(left_bits@.take(num_bits as int)), value as nat),
{
    if value == 0 {
        return true;
    }
    let v = bits_value_u128(left_bits, num_bits);
    v > value
}

/// The enforcing fixed-bound gadget: fails on a degenerate zero bound, and
/// otherwise succeeds exactly when the witnessed window is at most the bound,
/// returning the low bits that cover the bound's width.
pub fn leq_fixed(bits: &Vec<bool>, value: u128, num_bits: usize) -> (r: Result<
    Vec<bool>,
    SynthesisError,
>)
    requires
        num_bits <= 128,
        bits@.len() >= num_bits,
        (value as nat) < pow2(num_bits as nat),
    ensures
        value == 0 ==> r == Err::<Vec<bool>, SynthesisError>(SynthesisError::Unsatisfiable),
        value > 0 ==> ((r is Ok) <==> bits_val(bits@.take(num_bits as int)) <= value as nat),
        r matches Ok(res) ==> res@ =~= bits@.take(bit_len(value as nat) as int),
        r is Err ==> r == Err::<Vec<bool>, SynthesisError>(SynthesisError::Unsatisfiable),
{
    if value == 0 {
        return Err(SynthesisError::Unsatisfiable);
    }
    let v = bits_value_u128(bits, num_bits);
    if v > value {
        return Err(SynthesisError::Unsatisfiable);
    }
    let eff = bit_len_u128(value);
    proof {
        lemma_bit_len_val(value as nat);
        lemma_bit_len_bound(value as nat, num_bits as nat);
    }
    let mut res: Vec<bool> = Vec::new();
    let mut i: usize = 0;
    while i < eff
        invariant
            i <= eff,
            eff <= num_bits <= bits@.len(),
            res@ =~= bits@.take(i as int),
        decreases eff - i,
    {
        res.push(bits[i]);
        proof {
            assert(bits@.take(i + 1) =~= bits@.take(i as int).push(bits@[i as int]));
        }
        i += 1;
    }
    Ok(res)
}

} // verus!
