//! The prime field that the statement is arithmetised over, modelled by its
//! canonical little-endian byte representation, with the arithmetic done by the
//! outside field implementation.
use vstd::prelude::*;
use vstd::arithmetic::power2::*;
use crate::bits::{bits_val, bytes_val, bytes_to_bits_le, lemma_bits_val_take, lemma_bits_val_one};

verus! {

/// The modulus of the field: a 255-bit prime.
pub open spec fn fe_p() -> nat {
    0x73eda753299d7d483339d80809a1d80553bda402fffe5bfeffffffff00000001nat
}

/// One field element, held as its canonical value in 32 little-endian bytes.
#[derive(Clone, Copy, Debug)]
pub struct Fe {
    pub bytes: [u8; 32],
}

impl Fe {
    /// The integer this element stands for.
    pub open spec fn val(&self) -> nat {
        bytes_val(self.bytes@)
    }

    /// Canonical form: the value is a field element proper.
    pub open spec fn wf(&self) -> bool {
        self.val() < fe_p()
    }

    /// The zero element.
    pub fn zero() -> (r: Fe)
        ensures
            r.wf(),
            r.val() == 0,
    {
        Fe::from_u64(0)
    }

    /// The element standing for a 64-bit integer.
    pub fn from_u64(v: u64) -> (r: Fe)
        ensures
            r.wf(),
            r.val() == v as nat,
    {
        let bytes: [u8; 32] = [
            (v & 0xff) as u8,
            ((v >> 8) & 0xff) as u8,
            ((v >> 16) & 0xff) as u8,
            ((v >> 24) & 0xff) as u8,
            ((v >> 32) & 0xff) as u8,
            ((v >> 40) & 0xff) as u8,
            ((v >> 48) & 0xff) as u8,
            ((v >> 56) & 0xff) as u8,
            0,
            0,
            0,
            0,
            0,
            0,
            0,
            0,
            0,
            0,
            0,
            0,
            0,
            0,
            0,
            0,
            0,
            0,
            0,
            0,
            0,
            0,
            0,
            0,
        ];
        let r = Fe { bytes };
        proof {
            let s = bytes@;
            lemma_bytes_val_split(s, 8);
            assert(bytes_val(s.skip(8)) == 0) by {
                assert(forall|i: int| 0 <= i < s.skip(8).len() ==> s.skip(8)[i] == 0);
                lemma_bytes_val_zero(s.skip(8));
            }
            lemma_bytes_val_small(s.take(8));
            assert(v as nat == (v & 0xff) as nat + 0x100 * (((v >> 8) & 0xff) as nat) + 0x10000
                * (((v >> 16) & 0xff) as nat) + 0x1000000 * (((v >> 24) & 0xff) as nat)
                + 0x100000000 * (((v >> 32) & 0xff) as nat) + 0x10000000000 * (((v >> 40)
                & 0xff) as nat) + 0x1000000000000 * (((v >> 48) & 0xff) as nat)
                + 0x100000000000000 * (((v >> 56) & 0xff) as nat)) by (bit_vector);
            assert((v as nat) < pow2(64)) by {
                lemma2_to64_rest();
                assert(v <= u64::MAX);
            }
            assert((v & 0xff) as u8 as nat == (v & 0xff) as nat && ((v >> 8) & 0xff) as u8 as nat
                == ((v >> 8) & 0xff) as nat && ((v >> 16) & 0xff) as u8 as nat == ((v >> 16)
                & 0xff) as nat && ((v >> 24) & 0xff) as u8 as nat == ((v >> 24) & 0xff) as nat && ((
            v >> 32) & 0xff) as u8 as nat == ((v >> 32) & 0xff) as nat && ((v >> 40)
                & 0xff) as u8 as nat == ((v >> 40) & 0xff) as nat && ((v >> 48)
                & 0xff) as u8 as nat == ((v >> 48) & 0xff) as nat && ((v >> 56)
                & 0xff) as u8 as nat == ((v >> 56) & 0xff) as nat) by (bit_vector);
            lemma_fe_p_large();
        }
        r
    }

    /// Whether two elements are the same value.
    pub fn equals(&self, other: &Fe) -> (r: bool)
        ensures
            r <==> self.val() == other.val(),
    {
        proof {
            if self.val() == other.val() {
                lemma_bytes_val_inj(self.bytes@, other.bytes@);
            }
        }
        let mut i: usize = 0;
        while i < 32
            invariant
                i <= 32,
                forall|j: int| 0 <= j < i ==> self.bytes@[j] == other.bytes@[j],
            decreases 32 - i,
        {
            if self.bytes[i] != other.bytes[i] {
                proof {
                    if self.val() == other.val() {
                        lemma_bytes_val_inj(self.bytes@, other.bytes@);
                    }
                }
                return false;
            }
            i += 1;
        }
        proof {
            assert(self.bytes@ =~= other.bytes@);
        }
        true
    }

    /// The 255 little-endian bits of the value.
    pub fn to_bits_le(&self) -> (r: Vec<bool>)
        requires
            self.wf(),
        ensures
            r@.len() == 255,
            bits_val(r@) == self.val(),
    {
        let mut bits = bytes_to_bits_le(self.bytes.as_slice());
        let ghost pre = bits@;
        proof {
            lemma_bits_val_take(pre, 255);
            lemma_fe_p_large();
            lemma_bits_val_one(pre.skip(255));
            if pre[255] {
                assert(pow2(255) * bits_val(pre.skip(255)) >= pow2(255)) by (nonlinear_arith)
                    requires
                        bits_val(pre.skip(255)) >= 1,
                        pow2(255) > 0,
                ;
                assert(false);
            }
            assert(bits_val(pre.skip(255)) == 0);
            assert(pow2(255) * 0 == 0);
        }
        let _top = bits.pop();
        proof {
            assert(bits@ =~= pre.take(255));
        }
        bits
    }
}

/// The modulus is a 255-bit number: above 2^254 and below 2^255.
pub proof fn lemma_fe_p_large()
    ensures
        pow2(64) == 0x10000000000000000,
        pow2(255) == pow2(64) * pow2(64) * pow2(64) * (pow2(64) / 2),
        pow2(64) < fe_p(),
        fe_p() < pow2(255),
        pow2(255) < 2 * fe_p(),
{
    lemma2_to64_rest();
    lemma_pow2_adds(64, 64);
    lemma_pow2_adds(128, 64);
    lemma_pow2_adds(192, 63);
    lemma_pow2_subtracts(1, 64);
    lemma2_to64();
}

/// A byte string's value is below the power of two at its width.
pub proof fn lemma_bytes_val_bound(s: Seq<u8>)
    ensures
        bytes_val(s) < pow2(8 * s.len()),
    decreases s.len(),
{
    if s.len() == 0 {
        lemma2_to64();
    } else {
        lemma_bytes_val_bound(s.skip(1));
        assert(pow2(8 * s.len()) == 256 * pow2(8 * (s.len() - 1) as nat)) by {
            lemma_pow2_adds(8, 8 * (s.len() - 1) as nat);
            lemma2_to64();
        }
        assert(s[0] as nat + 256 * bytes_val(s.skip(1)) < 256 * pow2(8 * (s.len() - 1) as nat))
            by (nonlinear_arith)
            requires
                (s[0] as nat) < 256,
                bytes_val(s.skip(1)) < pow2(8 * (s.len() - 1) as nat),
        ;
    }
}

/// The byte at position `i` of a byte string is the corresponding base-256
/// digit of its value.
pub proof fn lemma_bytes_index(s: Seq<u8>, i: int)
    requires
        0 <= i < s.len(),
    ensures
        s[i] as nat == (bytes_val(s) / pow2(8 * i as nat)) % 256,
{
    let v = bytes_val(s);
    lemma_bytes_val_split(s, i);
    lemma_bytes_val_bound(s.take(i));
    lemma_pow2_pos(8 * i as nat);
    assert(s.take(i).len() == i);
    assert(v == bytes_val(s.take(i)) + pow2(8 * i as nat) * bytes_val(s.skip(i)));
    assert(pow2(8 * i as nat) * bytes_val(s.skip(i)) == bytes_val(s.skip(i)) * pow2(8 * i as nat))
        by (nonlinear_arith);
    vstd::arithmetic::div_mod::lemma_fundamental_div_mod_converse(
        v as int,
        pow2(8 * i as nat) as int,
        bytes_val(s.skip(i)) as int,
        bytes_val(s.take(i)) as int,
    );
    let tailv = bytes_val(s.skip(i));
    assert(s.skip(i).len() > 0);
    assert(tailv == s.skip(i)[0] as nat + 256 * bytes_val(s.skip(i).skip(1)));
    vstd::arithmetic::div_mod::lemma_fundamental_div_mod_converse(
        tailv as int,
        256,
        bytes_val(s.skip(i).skip(1)) as int,
        s.skip(i)[0] as int,
    );
    assert(s.skip(i)[0] == s[i]);
}

/// Equal-length byte strings with the same value are the same string.
pub proof fn lemma_bytes_val_inj(s: Seq<u8>, t: Seq<u8>)
    requires
        s.len() == t.len(),
        bytes_val(s) == bytes_val(t),
    ensures
        s =~= t,
{
    assert forall|i: int| 0 <= i < s.len() implies s[i] == t[i] by {
        lemma_bytes_index(s, i);
        lemma_bytes_index(t, i);
    }
}

/// A byte string of zeros has value zero.
pub proof fn lemma_bytes_val_zero(s: Seq<u8>)
    requires
        forall|i: int| 0 <= i < s.len() ==> s[i] == 0,
    ensures
        bytes_val(s) == 0,
    decreases s.len(),
{
    if s.len() > 0 {
        lemma_bytes_val_zero(s.skip(1));
    }
}

/// Splitting a byte string splits its value at the corresponding power of two.
pub proof fn lemma_bytes_val_split(s: Seq<u8>, n: int)
    requires
        0 <= n <= s.len(),
    ensures
        bytes_val(s) == bytes_val(s.take(n)) + pow2(8 * n as nat) * bytes_val(s.skip(n)),
    decreases n,
{
    if n == 0 {
        assert(s.take(0) =~= Seq::<u8>::empty());
        assert(s.skip(0) =~= s);
        lemma2_to64();
    } else {
        lemma_bytes_val_split(s.skip(1), n - 1);
        assert(s.skip(1).take(n - 1) =~= s.take(n).skip(1));
        assert(s.skip(1).skip(n - 1) =~= s.skip(n));
        assert(pow2(8 * n as nat) == 256 * pow2(8 * (n - 1) as nat)) by {
            lemma_pow2_adds(8, 8 * (n - 1) as nat);
            lemma2_to64();
        }
        assert(256 * (bytes_val(s.take(n).skip(1)) + pow2(8 * (n - 1) as nat) * bytes_val(s.skip(
            n,
        ))) == 256 * bytes_val(s.take(n).skip(1)) + (256 * pow2(8 * (n - 1) as nat)) * bytes_val(
            s.skip(n),
        )) by (nonlinear_arith);
        assert(s.take(n)[0] == s[0]);
    }
}

/// An eight-byte string's value, unrolled.
pub proof fn lemma_bytes_val_small(s: Seq<u8>)
    requires
        s.len() == 8,
    ensures
        bytes_val(s) == s[0] as nat + 0x100 * (s[1] as nat) + 0x10000 * (s[2] as nat) + 0x1000000
            * (s[3] as nat) + 0x100000000 * (s[4] as nat) + 0x10000000000 * (s[5] as nat)
            + 0x1000000000000 * (s[6] as nat) + 0x100000000000000 * (s[7] as nat),
{
    reveal_with_fuel(bytes_val, 10);
    assert(s.skip(1).skip(1) =~= s.skip(2));
    assert(s.skip(2).skip(1) =~= s.skip(3));
    assert(s.skip(3).skip(1) =~= s.skip(4));
    assert(s.skip(4).skip(1) =~= s.skip(5));
    assert(s.skip(5).skip(1) =~= s.skip(6));
    assert(s.skip(6).skip(1) =~= s.skip(7));
    assert(s.skip(7).skip(1) =~= Seq::<u8>::empty());
    assert(s.skip(1)[0] == s[1]);
    assert(s.skip(2)[0] == s[2]);
    assert(s.skip(3)[0] == s[3]);
    assert(s.skip(4)[0] == s[4]);
    assert(s.skip(5)[0] == s[5]);
    assert(s.skip(6)[0] == s[6]);
    assert(s.skip(7)[0] == s[7]);
}

/// The value of the multiplicative inverse that the outside field
/// implementation computes for a nonzero element.
pub uninterp spec fn fe_inv_val(a: nat) -> nat;

/// Relies on bls12_381::Scalar: addition is modular addition of the canonical
/// representatives.
#[verifier::external_body]
pub(crate) fn fe_add(a: &Fe, b: &Fe) -> (r: Fe)
    requires
        a.wf(),
        b.wf(),
    ensures
        r.wf(),
        r.val() == (a.val() + b.val()) % fe_p(),
{
    let x = bls12_381::Scalar::from_bytes(&a.bytes).unwrap();
    let y = bls12_381::Scalar::from_bytes(&b.bytes).unwrap();
    Fe { bytes: (x + y).to_bytes() }
}

/// Relies on bls12_381::Scalar: subtraction is modular subtraction of the
/// canonical representatives.
#[verifier::external_body]
pub(crate) fn fe_sub(a: &Fe, b: &Fe) -> (r: Fe)
    requires
        a.wf(),
        b.wf(),
    ensures
        r.wf(),
        r.val() as int == (a.val() + fe_p() - b.val()) % (fe_p() as int),
{
    let x = bls12_381::Scalar::from_bytes(&a.bytes).unwrap();
    let y = bls12_381::Scalar::from_bytes(&b.bytes).unwrap();
    Fe { bytes: (x - y).to_bytes() }
}

/// Relies on bls12_381::Scalar: multiplication is modular multiplication of the
/// canonical representatives.
#[verifier::external_body]
pub(crate) fn fe_mul(a: &Fe, b: &Fe) -> (r: Fe)
    requires
        a.wf(),
        b.wf(),
    ensures
        r.wf(),
        r.val() == (a.val() * b.val()) % fe_p(),
{
    let x = bls12_381::Scalar::from_bytes(&a.bytes).unwrap();
    let y = bls12_381::Scalar::from_bytes(&b.bytes).unwrap();
    Fe { bytes: (x * y).to_bytes() }
}

/// Relies on bls12_381::Scalar::invert: the multiplicative inverse of a nonzero
/// element, and nothing for zero.
#[verifier::external_body]
pub(crate) fn fe_invert(a: &Fe) -> (r: Option<Fe>)
    requires
        a.wf(),
    ensures
        r is Some <==> a.val() != 0,
        r matches Some(inv) ==> inv.wf() && inv.val() == fe_inv_val(a.val()) && (inv.val()
            * a.val()) % fe_p() == 1,
{
    let x = bls12_381::Scalar::from_bytes(&a.bytes).unwrap();
    let inv = x.invert();
    if inv.is_some().into() {
        Some(Fe { bytes: inv.unwrap().to_bytes() })
    } else {
        None
    }
}

} // verus!
