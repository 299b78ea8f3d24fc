//! The curve-based collision-resistant hash and the hiding note commitment,
//! consumed as external primitives: the library passes bit strings in and
//! carries the resulting curve points through opaquely, reading only the
//! affine u-coordinate back as a field element.
use vstd::prelude::*;
use vstd::arithmetic::power2::*;
use crate::field::{Fe, fe_p, lemma_fe_p_large, lemma_bytes_val_zero, lemma_bytes_val_split,
    lemma_bytes_val_small};
use crate::bits::{bits_val, bytes_val, nat_bits_le};

verus! {

/// The modulus of the jubjub scalar field: the prime order of the subgroup
/// the commitment randomness lives in.
pub open spec fn js_r() -> nat {
    0x0e7db4ea6533afa906673b0101343b00a6682093ccc81082d0970e5ed6f72cb7nat
}

/// One jubjub scalar, held as its canonical value in 32 little-endian bytes.
#[derive(Clone, Copy, Debug)]
pub struct Js {
    pub bytes: [u8; 32],
}

impl Js {
    /// The integer this scalar stands for.
    pub open spec fn val(&self) -> nat {
        bytes_val(self.bytes@)
    }

    /// Canonical form: the value is a scalar proper.
    pub open spec fn wf(&self) -> bool {
        self.val() < js_r()
    }

    /// The scalar standing for a 64-bit integer.
    pub fn from_u64(v: u64) -> (r: Js)
        ensures
            r.wf(),
            r.val() == v as nat,
    {
        let bytes: [u8; 32] = [
            (v & 0xff) as u8,
            ((v >> 8) & 0xff) as u8,
            ((v >> 16) & 0xff) as u8,
            ((v >> 24) & 0xff) as u8,
            ((v >> 32) & 0xff) as u8,
            ((v >> 40) & 0xff) as u8,
            ((v >> 48) & 0xff) as u8,
            ((v >> 56) & 0xff) as u8,
            0,
            0,
            0,
            0,
            0,
            0,
            0,
            0,
            0,
            0,
            0,
            0,
            0,
            0,
            0,
            0,
            0,
            0,
            0,
            0,
            0,
            0,
            0,
            0,
        ];
        let r = Js { bytes };
        proof {
            let s = bytes@;
            lemma_bytes_val_split(s, 8);
            assert(bytes_val(s.skip(8)) == 0) by {
                assert(forall|i: int| 0 <= i < s.skip(8).len() ==> s.skip(8)[i] == 0);
                lemma_bytes_val_zero(s.skip(8));
            }
            lemma_bytes_val_small(s.take(8));
            assert(v as nat == (v & 0xff) as nat + 0x100 * (((v >> 8) & 0xff) as nat) + 0x10000
                * (((v >> 16) & 0xff) as nat) + 0x1000000 * (((v >> 24) & 0xff) as nat)
                + 0x100000000 * (((v >> 32) & 0xff) as nat) + 0x10000000000 * (((v >> 40)
                & 0xff) as nat) + 0x1000000000000 * (((v >> 48) & 0xff) as nat)
                + 0x100000000000000 * (((v >> 56) & 0xff) as nat)) by (bit_vector);
            assert((v & 0xff) as u8 as nat == (v & 0xff) as nat && ((v >> 8) & 0xff) as u8 as nat
                == ((v >> 8) & 0xff) as nat && ((v >> 16) & 0xff) as u8 as nat == ((v >> 16)
                & 0xff) as nat && ((v >> 24) & 0xff) as u8 as nat == ((v >> 24) & 0xff) as nat && ((
            v >> 32) & 0xff) as u8 as nat == ((v >> 32) & 0xff) as nat && ((v >> 40)
                & 0xff) as u8 as nat == ((v >> 40) & 0xff) as nat && ((v >> 48)
                & 0xff) as u8 as nat == ((v >> 48) & 0xff) as nat && ((v >> 56)
                & 0xff) as u8 as nat == ((v >> 56) & 0xff) as nat) by (bit_vector);
            assert((v as nat) < pow2(64)) by {
                lemma2_to64_rest();
            }
            lemma_fe_p_large();
        }
        r
    }
}

/// The domain separation of the curve hash: the note-commitment domain, or
/// one Merkle tree level.
#[derive(Clone, Copy, Debug, PartialEq, Eq, Structural)]
pub enum HashPersona {
    NoteCommitment,
    MerkleTree(usize),
}

impl HashPersona {
    /// The six-bit domain code: all ones for the note-commitment domain, the
    /// level number otherwise.
    pub open spec fn code(&self) -> int {
        match self {
            HashPersona::NoteCommitment => 63,
            HashPersona::MerkleTree(n) => *n as int,
        }
    }

    /// A Merkle level fits the six-bit domain code.
    pub open spec fn wf(&self) -> bool {
        match self {
            HashPersona::NoteCommitment => true,
            HashPersona::MerkleTree(n) => *n < 63,
        }
    }
}

/// The affine u-coordinate of the curve hash of a bit string under a domain
/// code, which depends on the code and the bits alone.
pub uninterp spec fn pedersen_x_of(person: int, bits: Seq<bool>) -> nat;

/// Relies on sapling_crypto::pedersen_hash::pedersen_hash: the digest is a
/// deterministic function of the personalization and the bit string, and its
/// affine u-coordinate is a canonical field element. The hash draws from a
/// fixed generator table that covers 1134 chunk bits; with the six
/// personalization bits in front, inputs beyond 1128 bits run out of
/// generators and are excluded here.
#[verifier::external_body]
pub(crate) fn pedersen_hash_x(person: &HashPersona, bits: &Vec<bool>) -> (r: Fe)
    requires
        person.wf(),
        bits@.len() <= 1128,
    ensures
        r.wf(),
        r.val() == pedersen_x_of(person.code(), bits@),
{
    let p = match person {
        HashPersona::NoteCommitment => sapling_crypto::pedersen_hash::Personalization::NoteCommitment,
        HashPersona::MerkleTree(n) => sapling_crypto::pedersen_hash::Personalization::MerkleTree(*n),
    };
    let h = sapling_crypto::pedersen_hash::pedersen_hash(p, bits.iter().copied());
    let u = jubjub::AffinePoint::from(jubjub::ExtendedPoint::from(h)).get_u();
    Fe { bytes: u.to_bytes() }
}

/// The affine u-coordinate of the randomized note commitment, a function of
/// the committed content bits and the randomness scalar alone.
pub uninterp spec fn note_commit_x(bits: Seq<bool>, s: nat) -> nat;

/// Relies on the windowed Pedersen commitment of the protocol: the curve hash
/// of the contents in the note-commitment domain
/// (sapling_crypto::pedersen_hash::pedersen_hash), randomized by the fixed
/// note-commitment-randomness generator raised to the randomness scalar
/// (jubjub scalar multiplication and point addition), read back as the affine
/// u-coordinate. The result depends on the contents and the randomness alone,
/// and is a canonical field element. The same generator-table limit as for
/// the plain curve hash excludes contents beyond 1128 bits.
#[verifier::external_body]
pub(crate) fn note_commitment_x(bits: &Vec<bool>, s: &Js) -> (r: Fe)
    requires
        s.wf(),
        bits@.len() <= 1128,
    ensures
        r.wf(),
        r.val() == note_commit_x(bits@, s.val()),
{
    let h = sapling_crypto::pedersen_hash::pedersen_hash(
        sapling_crypto::pedersen_hash::Personalization::NoteCommitment,
        bits.iter().copied(),
    );
    let rcm = &sapling_crypto::constants::NOTE_COMMITMENT_RANDOMNESS_GENERATOR
        * &jubjub::Fr::from_bytes(&s.bytes).unwrap();
    let u = jubjub::AffinePoint::from(jubjub::ExtendedPoint::from(h + rcm)).get_u();
    Fe { bytes: u.to_bytes() }
}

/// The curve-based hash of a bit string in the note-commitment domain, read
/// as the digest point's u-coordinate.
pub fn crh(bits: &Vec<bool>) -> (r: Fe)
    requires
        bits@.len() <= 1128,
    ensures
        r.wf(),
        r.val() == pedersen_x_of(63, bits@),
{
    pedersen_hash_x(&HashPersona::NoteCommitment, bits)
}

} // verus!
