//! Little-endian bit and byte strings and their numeric values.
use vstd::prelude::*;
use vstd::arithmetic::power2::*;

verus! {

/// Value of a little-endian bit string.
pub open spec fn bits_val(s: Seq<bool>) -> nat
    decreases s.len(),
{
    if s.len() == 0 {
        0
    } else {
        (if s[0] {
            1nat
        } else {
            0nat
        }) + 2 * bits_val(s.skip(1))
    }
}

/// Value of a little-endian byte string.
pub open spec fn bytes_val(s: Seq<u8>) -> nat
    decreases s.len(),
{
    if s.len() == 0 {
        0
    } else {
        s[0] as nat + 256 * bytes_val(s.skip(1))
    }
}

pub proof fn lemma_bits_val_bound(s: Seq<bool>)
    ensures
        bits_val(s) < pow2(s.len() as nat),
    decreases s.len(),
{
    lemma2_to64();
    if s.len() == 0 {
    } else {
        lemma_bits_val_bound(s.skip(1));
        lemma_pow2_unfold(s.len() as nat);
    }
}

/// The value of a one-bit string.
pub proof fn lemma_bits_val_one(s: Seq<bool>)
    requires
        s.len() == 1,
    ensures
        bits_val(s) == (if s[0] {
            1nat
        } else {
            0nat
        }),
{
    assert(bits_val(s.skip(1)) == 0);
}

pub proof fn lemma_bits_val_append(s: Seq<bool>, t: Seq<bool>)
    ensures
        bits_val(s + t) == bits_val(s) + pow2(s.len() as nat) * bits_val(t),
    decreases s.len(),
{
    if s.len() == 0 {
        assert(s + t =~= t);
        assert(pow2(0) == 1) by {
            lemma2_to64();
        }
    } else {
        lemma_bits_val_append(s.skip(1), t);
        assert((s + t).skip(1) =~= s.skip(1) + t);
        lemma_pow2_unfold(s.len() as nat);
        assert(bits_val(s + t) == (if s[0] {
            1nat
        } else {
            0nat
        }) + 2 * (bits_val(s.skip(1)) + pow2((s.len() - 1) as nat) * bits_val(t)));
        assert(2 * (pow2((s.len() - 1) as nat) * bits_val(t)) == pow2(s.len() as nat) * bits_val(
            t,
        )) by (nonlinear_arith)
            requires
                pow2(s.len() as nat) == 2 * pow2((s.len() - 1) as nat),
        ;
    }
}

pub proof fn lemma_bits_val_push(s: Seq<bool>, b: bool)
    ensures
        bits_val(s.push(b)) == bits_val(s) + pow2(s.len() as nat) * (if b {
            1nat
        } else {
            0nat
        }),
{
    assert(s.push(b) =~= s + seq![b]);
    lemma_bits_val_append(s, seq![b]);
    assert(seq![b].len() == 1);
    lemma_bits_val_one(seq![b]);
    assert(seq![b][0] == b);
}

pub proof fn lemma_bytes_val_push(s: Seq<u8>, b: u8)
    ensures
        bytes_val(s.push(b)) == bytes_val(s) + pow2(8 * s.len() as nat) * (b as nat),
    decreases s.len(),
{
    if s.len() == 0 {
        assert(s.push(b).skip(1) =~= Seq::<u8>::empty());
        assert(bytes_val(s.push(b).skip(1)) == 0);
        assert(s.push(b)[0] == b);
        assert(pow2(0) == 1) by {
            lemma2_to64();
        }
    } else {
        lemma_bytes_val_push(s.skip(1), b);
        assert(s.push(b).skip(1) =~= s.skip(1).push(b));
        assert(pow2(8 * s.len() as nat) == 256 * pow2(8 * (s.len() - 1) as nat)) by {
            lemma_pow2_adds(8, 8 * (s.len() - 1) as nat);
            lemma2_to64();
        }
        assert(256 * (bytes_val(s.skip(1)) + pow2(8 * (s.len() - 1) as nat) * (b as nat)) == 256
            * bytes_val(s.skip(1)) + (256 * pow2(8 * (s.len() - 1) as nat)) * (b as nat))
            by (nonlinear_arith);
    }
}

/// The eight little-endian bits of one byte.
pub open spec fn byte_bits(b: u8) -> Seq<bool> {
    seq![
        b & 1 == 1,
        (b >> 1) & 1 == 1,
        (b >> 2) & 1 == 1,
        (b >> 3) & 1 == 1,
        (b >> 4) & 1 == 1,
        (b >> 5) & 1 == 1,
        (b >> 6) & 1 == 1,
        (b >> 7) & 1 == 1,
    ]
}

/// The numeric weight of one bit.
pub open spec fn bit1(b: bool) -> nat {
    if b {
        1nat
    } else {
        0nat
    }
}

/// An eight-bit string's value, flattened.
pub proof fn lemma_bits_val_small(s: Seq<bool>)
    requires
        s.len() == 8,
    ensures
        bits_val(s) == bit1(s[0]) + 2 * bit1(s[1]) + 4 * bit1(s[2]) + 8 * bit1(s[3]) + 16 * bit1(
            s[4],
        ) + 32 * bit1(s[5]) + 64 * bit1(s[6]) + 128 * bit1(s[7]),
{
    reveal_with_fuel(bits_val, 10);
    let s1 = s.skip(1);
    let s2 = s.skip(2);
    let s3 = s.skip(3);
    let s4 = s.skip(4);
    let s5 = s.skip(5);
    let s6 = s.skip(6);
    let s7 = s.skip(7);
    assert(s1.skip(1) =~= s2);
    assert(s2.skip(1) =~= s3);
    assert(s3.skip(1) =~= s4);
    assert(s4.skip(1) =~= s5);
    assert(s5.skip(1) =~= s6);
    assert(s6.skip(1) =~= s7);
    assert(s7.skip(1) =~= Seq::<bool>::empty());
    assert(s1[0] == s[1] && s2[0] == s[2] && s3[0] == s[3] && s4[0] == s[4] && s5[0] == s[5]
        && s6[0] == s[6] && s7[0] == s[7]);
}

pub proof fn lemma_byte_bits_val(b: u8)
    ensures
        bits_val(byte_bits(b)) == b as nat,
{
    let s = byte_bits(b);
    lemma_bits_val_small(s);
    let b0 = bit1(b & 1 == 1);
    let b1 = bit1((b >> 1) & 1 == 1);
    let b2 = bit1((b >> 2) & 1 == 1);
    let b3 = bit1((b >> 3) & 1 == 1);
    let b4 = bit1((b >> 4) & 1 == 1);
    let b5 = bit1((b >> 5) & 1 == 1);
    let b6 = bit1((b >> 6) & 1 == 1);
    let b7 = bit1((b >> 7) & 1 == 1);
    assert(b as nat == (if b & 1 == 1 {
        1nat
    } else {
        0nat
    }) + 2 * (if (b >> 1) & 1 == 1 {
        1nat
    } else {
        0nat
    }) + 4 * (if (b >> 2) & 1 == 1 {
        1nat
    } else {
        0nat
    }) + 8 * (if (b >> 3) & 1 == 1 {
        1nat
    } else {
        0nat
    }) + 16 * (if (b >> 4) & 1 == 1 {
        1nat
    } else {
        0nat
    }) + 32 * (if (b >> 5) & 1 == 1 {
        1nat
    } else {
        0nat
    }) + 64 * (if (b >> 6) & 1 == 1 {
        1nat
    } else {
        0nat
    }) + 128 * (if (b >> 7) & 1 == 1 {
        1nat
    } else {
        0nat
    })) by (bit_vector);
    assert(b0 == bit1(s[0]) && b1 == bit1(s[1]) && b2 == bit1(s[2]) && b3 == bit1(s[3]) && b4
        == bit1(s[4]) && b5 == bit1(s[5]) && b6 == bit1(s[6]) && b7 == bit1(s[7]));
}

/// Appends the eight bits of one byte to a bit vector.
fn push_byte_bits(out: &mut Vec<bool>, b: u8)
    ensures
        final(out)@ =~= old(out)@ + byte_bits(b),
{
    out.push(b & 1 == 1);
    out.push((b >> 1) & 1 == 1);
    out.push((b >> 2) & 1 == 1);
    out.push((b >> 3) & 1 == 1);
    out.push((b >> 4) & 1 == 1);
    out.push((b >> 5) & 1 == 1);
    out.push((b >> 6) & 1 == 1);
    out.push((b >> 7) & 1 == 1);
}

/// Little-endian bit decomposition of a little-endian byte string.
pub fn bytes_to_bits_le(bytes: &[u8]) -> (r: Vec<bool>)
    ensures
        r@.len() == 8 * bytes@.len(),
        bits_val(r@) == bytes_val(bytes@),
{
    let mut out: Vec<bool> = Vec::new();
    let n = bytes.len();
    let mut i: usize = 0;
    while i < n
        invariant
            i <= n,
            n == bytes@.len(),
            out@.len() == 8 * i,
            bits_val(out@) == bytes_val(bytes@.take(i as int)),
        decreases n - i,
    {
        let b = bytes[i];
        let ghost before = out@;
        push_byte_bits(&mut out, b);
        proof {
            lemma_bits_val_append(before, byte_bits(b));
            lemma_byte_bits_val(b);
            assert(bytes@.take(i + 1) =~= bytes@.take(i as int).push(bytes@[i as int]));
            lemma_bytes_val_push(bytes@.take(i as int), bytes@[i as int]);
        }
        i += 1;
    }
    proof {
        assert(bytes@.take(n as int) =~= bytes@);
    }
    out
}

/// The little-endian bits of a 64-bit value, in a vector of exactly 64 bits.
pub fn u64_to_bits_le(v: u64) -> (r: Vec<bool>)
    ensures
        r@.len() == 64,
        bits_val(r@) == v as nat,
{
    let bytes: [u8; 8] = [
        (v & 0xff) as u8,
        ((v >> 8) & 0xff) as u8,
        ((v >> 16) & 0xff) as u8,
        ((v >> 24) & 0xff) as u8,
        ((v >> 32) & 0xff) as u8,
        ((v >> 40) & 0xff) as u8,
        ((v >> 48) & 0xff) as u8,
        ((v >> 56) & 0xff) as u8,
    ];
    proof {
        let s = bytes@;
        crate::field::lemma_bytes_val_small(s);
        assert(v as nat == (v & 0xff) as nat + 0x100 * (((v >> 8) & 0xff) as nat) + 0x10000 * (((v
            >> 16) & 0xff) as nat) + 0x1000000 * (((v >> 24) & 0xff) as nat) + 0x100000000 * (((v
            >> 32) & 0xff) as nat) + 0x10000000000 * (((v >> 40) & 0xff) as nat) + 0x1000000000000
            * (((v >> 48) & 0xff) as nat) + 0x100000000000000 * (((v >> 56) & 0xff) as nat))
            by (bit_vector);
            assert((v & 0xff) as u8 as nat == (v & 0xff) as nat && ((v >> 8) & 0xff) as u8 as nat
                == ((v >> 8) & 0xff) as nat && ((v >> 16) & 0xff) as u8 as nat == ((v >> 16)
                & 0xff) as nat && ((v >> 24) & 0xff) as u8 as nat == ((v >> 24) & 0xff) as nat && ((
            v >> 32) & 0xff) as u8 as nat == ((v >> 32) & 0xff) as nat && ((v >> 40)
                & 0xff) as u8 as nat == ((v >> 40) & 0xff) as nat && ((v >> 48)
                & 0xff) as u8 as nat == ((v >> 48) & 0xff) as nat && ((v >> 56)
                & 0xff) as u8 as nat == ((v >> 56) & 0xff) as nat) by (bit_vector);
    }
    bytes_to_bits_le(bytes.as_slice())
}

/// Truncating a bit string keeps its value modulo the corresponding power of two;
/// in particular, dropping high zero bits keeps the value.
pub proof fn lemma_bits_val_take(s: Seq<bool>, n: int)
    requires
        0 <= n <= s.len(),
    ensures
        bits_val(s) == bits_val(s.take(n)) + pow2(n as nat) * bits_val(s.skip(n)),
{
    assert(s =~= s.take(n) + s.skip(n));
    lemma_bits_val_append(s.take(n), s.skip(n));
}

/// The little-endian bit string of a value, at a given width.
pub open spec fn nat_bits_le(x: nat, n: nat) -> Seq<bool> {
    Seq::new(n, |i: int| (x / pow2(i as nat)) % 2 == 1)
}

/// The bit at position `i` of a bit string is the corresponding binary digit
/// of its value.
pub proof fn lemma_bits_index(s: Seq<bool>, i: int)
    requires
        0 <= i < s.len(),
    ensures
        s[i] == ((bits_val(s) / pow2(i as nat)) % 2 == 1),
{
    let v = bits_val(s);
    lemma_bits_val_take(s, i);
    lemma_bits_val_bound(s.take(i));
    lemma_pow2_pos(i as nat);
    assert(s.take(i).len() == i);
    assert(v == bits_val(s.take(i)) + pow2(i as nat) * bits_val(s.skip(i)));
    assert(pow2(i as nat) * bits_val(s.skip(i)) == bits_val(s.skip(i)) * pow2(i as nat))
        by (nonlinear_arith);
    vstd::arithmetic::div_mod::lemma_fundamental_div_mod_converse(
        v as int,
        pow2(i as nat) as int,
        bits_val(s.skip(i)) as int,
        bits_val(s.take(i)) as int,
    );
    let tailv = bits_val(s.skip(i));
    assert(s.skip(i).len() > 0);
    assert(tailv == (if s.skip(i)[0] {
        1nat
    } else {
        0nat
    }) + 2 * bits_val(s.skip(i).skip(1)));
    vstd::arithmetic::div_mod::lemma_fundamental_div_mod_converse(
        tailv as int,
        2,
        bits_val(s.skip(i).skip(1)) as int,
        if s.skip(i)[0] {
            1
        } else {
            0
        },
    );
    assert(s.skip(i)[0] == s[i]);
}

/// A bit string is determined by its value and its length.
pub proof fn lemma_bits_val_unique(s: Seq<bool>)
    ensures
        s =~= nat_bits_le(bits_val(s), s.len()),
{
    assert forall|i: int| 0 <= i < s.len() implies s[i] == nat_bits_le(bits_val(s), s.len())[i] by {
        lemma_bits_index(s, i);
    }
}

/// The value of a middle slice of a bit string is the corresponding
/// div-then-mod window of its value.
pub proof fn lemma_bits_slice_val(s: Seq<bool>, a: int, b: int)
    requires
        0 <= a <= b <= s.len(),
    ensures
        bits_val(s.subrange(a, b)) == (bits_val(s) / pow2(a as nat)) % pow2((b - a) as nat),
{
    let v = bits_val(s);
    let sub = s.subrange(a, b);
    lemma_bits_val_take(s, b);
    assert(s.take(b).take(a) =~= s.take(a));
    assert(s.take(b).skip(a) =~= sub);
    lemma_bits_val_take(s.take(b), a);
    lemma_bits_val_bound(s.take(a));
    lemma_bits_val_bound(sub);
    lemma_pow2_pos(a as nat);
    lemma_pow2_pos((b - a) as nat);
    lemma_pow2_adds(a as nat, (b - a) as nat);
    // v == take(a) + 2^a * (sub + 2^(b-a) * skip(b))
    let q = bits_val(sub) + pow2((b - a) as nat) * bits_val(s.skip(b));
    assert(pow2(a as nat) * q == pow2(a as nat) * bits_val(sub) + (pow2(a as nat) * pow2(
        (b - a) as nat,
    )) * bits_val(s.skip(b))) by (nonlinear_arith)
        requires
            q == bits_val(sub) + pow2((b - a) as nat) * bits_val(s.skip(b)),
    ;
    assert(v == bits_val(s.take(a)) + pow2(a as nat) * q);
    assert(pow2(a as nat) * q == q * pow2(a as nat)) by (nonlinear_arith);
    vstd::arithmetic::div_mod::lemma_fundamental_div_mod_converse(
        v as int,
        pow2(a as nat) as int,
        q as int,
        bits_val(s.take(a)) as int,
    );
    assert(pow2((b - a) as nat) * bits_val(s.skip(b)) == bits_val(s.skip(b)) * pow2(
        (b - a) as nat,
    )) by (nonlinear_arith);
    vstd::arithmetic::div_mod::lemma_fundamental_div_mod_converse(
        q as int,
        pow2((b - a) as nat) as int,
        bits_val(s.skip(b)) as int,
        bits_val(sub) as int,
    );
}


} // verus!
