//! The top-level statement: composes the address-key PRF, the forward-secure
//! tree, the packed identity, the coin commitment and its membership, the
//! sortition sampler and the ticket-index bound, the serial number and its
//! gap nonmembership, and the per-ticket and identity tags into the public
//! input vector, failing exactly when a witness value is missing or an
//! enforced relation cannot be satisfied.
use vstd::prelude::*;
use vstd::arithmetic::power2::*;
use crate::SynthesisError;
use crate::field::Fe;
use crate::bits::{bits_val, nat_bits_le, u64_to_bits_le, lemma_bits_val_unique,
    lemma_bits_slice_val};
use crate::curve::{Js, crh, pedersen_x_of, note_commit_x, note_commitment_x};
use crate::constants::Constants;
use crate::hashes::{poseidon, poseidon_spec, fe_vals, crh_elems_spec,
    crh_poseidon_or_pedersen_elems};
use crate::prf::{mimc_prf, mimc_prf_spec, mimc_ok};
use crate::merkle::{gap_ok, serial_number_gap, membership_root_spec, membership_ok_spec,
    coin_commitment_membership, serial_number_nonmembership, path1_wf, path2_wf};
use crate::fstree::{FsWitness, fs_level_digest, forward_secure_tree};
use crate::sortition::{num_selections_spec, sel_prfs_ok, calc_num_selections};
use crate::inputs::{PubInput, Coin, AuxInput, BlockProposerPubInput, BlockProposerAuxInput,
    opt_path1_wf, opt_path2_wf, random_fe, random_js, random_u64, random_bool, random_u8,
    random_fe_vec, random_fs_witness};

verus! {

/// The extra public outputs of a block-proposer statement.
#[derive(Debug)]
pub struct BlockProposerOutputs {
    pub priority: Fe,
    pub round: Fe,
    pub seed_comp: Fe,
}

/// The public input vector of one synthesized statement, together with the
/// two exposed tree roots.
#[derive(Debug)]
pub struct PublicOutputs {
    pub role: Fe,
    pub seed: Fe,
    pub tsn: Fe,
    pub h_sig: Fe,
    pub h: Fe,
    pub cm_root: Fe,
    pub sn_root: Fe,
    pub bp: Option<BlockProposerOutputs>,
}

impl PublicOutputs {
    /// The order-sensitive public input vector: role, seed, tsn, h_sig, h,
    /// and for a block-proposer statement additionally priority, round and
    /// seed_comp.
    pub fn vector(&self) -> (r: Vec<Fe>)
        ensures
            r@.len() == (if self.bp is Some {
                8int
            } else {
                5int
            }),
            r@[0] == self.role,
            r@[1] == self.seed,
            r@[2] == self.tsn,
            r@[3] == self.h_sig,
            r@[4] == self.h,
            self.bp matches Some(bp) ==> r@[5] == bp.priority && r@[6] == bp.round && r@[7]
                == bp.seed_comp,
    {
        let mut out: Vec<Fe> = Vec::new();
        out.push(self.role);
        out.push(self.seed);
        out.push(self.tsn);
        out.push(self.h_sig);
        out.push(self.h);
        match &self.bp {
            Some(bp) => {
                out.push(bp.priority);
                out.push(bp.round);
                out.push(bp.seed_comp);
            },
            None => (),
        }
        out
    }
}

/// One synthesizable statement: the configuration, the two compile-time mode
/// flags, and the public and private inputs.
#[derive(Clone)]
pub struct AnonStake {
    pub constants: Constants,
    pub is_bp: bool,
    pub use_poseidon: bool,
    pub pub_input: PubInput,
    pub aux_input: AuxInput,
    pub bp_pub_input: BlockProposerPubInput,
    pub bp_aux_input: BlockProposerAuxInput,
}

/// The packed identity: the curve hash over the tree-start bits, the
/// forward-secure public key's bits and the address key's bits.
pub open spec fn pack_spec(fs_start: nat, fs_pk: nat, a_pk: nat) -> nat {
    pedersen_x_of(63, nat_bits_le(fs_start, 64) + nat_bits_le(fs_pk, 255) + nat_bits_le(a_pk, 255))
}

/// The committed note contents: the value bits, the packed identity's bits
/// and the nonce's bits.
pub open spec fn note_contents_spec(value: nat, full_pk: nat, rho: nat) -> Seq<bool> {
    nat_bits_le(value, 64) + nat_bits_le(full_pk, 255) + nat_bits_le(rho, 255)
}

/// The eligibility hash over the role and the round randomness.
pub open spec fn role_seed_hash_spec(role: nat, seed: nat) -> nat {
    pedersen_x_of(63, nat_bits_le(role, 64) + nat_bits_le(seed, 255))
}

/// The pre-hash of the per-ticket tag over the nonce, the role and the
/// ticket index, under the selected hash mode.
pub open spec fn tsn_hash_spec(c: &Constants, up: bool, rho: nat, role: nat, j: nat) -> nat {
    if up {
        poseidon_spec(&c.poseidon, seq![rho, role, j, 0, 0, 0, 0, 0])
    } else {
        pedersen_x_of(63, nat_bits_le(rho, 255) + nat_bits_le(role, 64) + nat_bits_le(j, 11))
    }
}

/// The pre-hash of the identity tag over the public commitment and the role.
pub open spec fn h_hash_spec(c: &Constants, up: bool, h_sig: nat, role: nat) -> nat {
    if up {
        poseidon_spec(&c.poseidon, seq![h_sig, role, 0, 0, 0, 0, 0, 0])
    } else {
        pedersen_x_of(63, nat_bits_le(h_sig, 255) + nat_bits_le(role, 64))
    }
}

/// The pre-hash of the proposer priority over the role, the round randomness
/// and the ticket index.
pub open spec fn priority_hash_spec(c: &Constants, up: bool, role: nat, seed: nat, j: nat) -> nat {
    if up {
        poseidon_spec(&c.poseidon, seq![role, seed, j, 0, 0, 0, 0, 0])
    } else {
        pedersen_x_of(63, nat_bits_le(role, 64) + nat_bits_le(seed, 255) + nat_bits_le(j, 11))
    }
}

/// The pre-hash of the seed component over the round number and the ticket
/// index, always under the curve hash.
pub open spec fn seed_comp_hash_spec(round: nat, j: nat) -> nat {
    pedersen_x_of(63, nat_bits_le(round, 64) + nat_bits_le(j, 11))
}

impl AnonStake {
    pub open spec fn wf(&self) -> bool {
        &&& self.constants.wf()
        &&& self.pub_input.wf()
        &&& self.aux_input.wf()
    }

    pub open spec fn exp(&self) -> nat {
        self.constants.mimc.exponent as nat
    }

    pub open spec fn skv(&self) -> nat {
        self.aux_input.a_sk->0.val()
    }

    pub open spec fn rolev(&self) -> nat {
        self.pub_input.role->0 as nat
    }

    pub open spec fn seedv(&self) -> nat {
        self.pub_input.seed->0.val()
    }

    pub open spec fn h_sigv(&self) -> nat {
        self.pub_input.h_sig->0.val()
    }

    pub open spec fn rhov(&self) -> nat {
        self.aux_input.coin.rho->0.val()
    }

    pub open spec fn valuev(&self) -> nat {
        self.aux_input.coin.value->0 as nat
    }

    pub open spec fn fs_startv(&self) -> nat {
        self.aux_input.fs_tree_start->0 as nat
    }

    /// The ticket index: the low eleven bits of the witnessed value.
    pub open spec fn jv(&self) -> nat {
        (self.aux_input.j_i->0 % 2048) as nat
    }

    pub open spec fn roundv(&self) -> nat {
        self.bp_pub_input.r->0 as nat
    }

    pub open spec fn cm_path1(&self) -> Seq<(Fe, bool)> {
        self.aux_input.cm_merkle_path@.map_values(|o: Option<(Fe, bool)>| o->0)
    }

    pub open spec fn sn_path1(&self) -> Seq<(Fe, bool)> {
        self.aux_input.sn_merkle_path@.map_values(|o: Option<(Fe, bool)>| o->0)
    }

    pub open spec fn cm_path2(&self) -> Seq<([Fe; 8], u8)> {
        self.aux_input.cm_poseidon_path@.map_values(|o: Option<([Fe; 8], u8)>| o->0)
    }

    pub open spec fn sn_path2(&self) -> Seq<([Fe; 8], u8)> {
        self.aux_input.sn_poseidon_path@.map_values(|o: Option<([Fe; 8], u8)>| o->0)
    }

    /// Whether every witness value the statement reads is supplied.
    pub open spec fn witness_present(&self) -> bool {
        &&& self.aux_input.a_sk is Some
        &&& self.pub_input.role is Some
        &&& self.pub_input.seed is Some
        &&& self.pub_input.h_sig is Some
        &&& self.aux_input.fs_tree_start is Some
        &&& self.aux_input.fs_witness is Some
        &&& self.aux_input.coin.rho is Some
        &&& self.aux_input.coin.value is Some
        &&& self.aux_input.coin.s is Some
        &&& self.aux_input.j_i is Some
        &&& self.aux_input.sn_less_diff is Some
        &&& self.aux_input.sn_plus_diff is Some
        &&& (self.use_poseidon ==> forall|i: int|
            0 <= i < self.aux_input.cm_poseidon_path@.len()
                ==> (#[trigger] self.aux_input.cm_poseidon_path@[i]) is Some)
        &&& (self.use_poseidon ==> forall|i: int|
            0 <= i < self.aux_input.sn_poseidon_path@.len()
                ==> (#[trigger] self.aux_input.sn_poseidon_path@[i]) is Some)
        &&& (!self.use_poseidon ==> forall|i: int|
            0 <= i < self.aux_input.cm_merkle_path@.len()
                ==> (#[trigger] self.aux_input.cm_merkle_path@[i]) is Some)
        &&& (!self.use_poseidon ==> forall|i: int|
            0 <= i < self.aux_input.sn_merkle_path@.len()
                ==> (#[trigger] self.aux_input.sn_merkle_path@[i]) is Some)
        &&& (self.is_bp ==> self.bp_pub_input.r is Some)
    }

    pub open spec fn a_pkv(&self) -> nat {
        mimc_prf_spec(self.skv(), 0, self.constants.mimc.prf_addr@, self.exp())
    }

    pub open spec fn fs_pkv(&self) -> nat {
        fs_level_digest(
            &self.constants.poseidon,
            self.use_poseidon,
            &self.aux_input.fs_witness->0,
            nat_bits_le((self.rolev() - self.fs_startv()) as nat, 36),
            3,
        )
    }

    pub open spec fn full_pkv(&self) -> nat {
        pack_spec(self.fs_startv(), self.fs_pkv(), self.a_pkv())
    }

    pub open spec fn cm_xv(&self) -> nat {
        note_commit_x(
            note_contents_spec(self.valuev(), self.full_pkv(), self.rhov()),
            self.aux_input.coin.s->0.val(),
        )
    }

    pub open spec fn cm_rootv(&self) -> nat {
        membership_root_spec(
            &self.constants.poseidon,
            self.use_poseidon,
            self.cm_xv(),
            self.cm_path1(),
            self.cm_path2(),
        )
    }

    pub open spec fn rs_hashv(&self) -> nat {
        role_seed_hash_spec(self.rolev(), self.seedv())
    }

    pub open spec fn num_selv(&self) -> nat {
        num_selections_spec(
            &self.constants,
            nat_bits_le(self.valuev(), 64),
            self.skv(),
            self.rs_hashv(),
            60,
        )
    }

    pub open spec fn snv(&self) -> nat {
        mimc_prf_spec(self.skv(), self.rhov(), self.constants.mimc.prf_sn@, self.exp())
    }

    pub open spec fn sn_lessv(&self) -> nat {
        (self.snv() - self.aux_input.sn_less_diff->0.val()) as nat
    }

    pub open spec fn sn_plusv(&self) -> nat {
        self.snv() + self.aux_input.sn_plus_diff->0.val()
    }

    pub open spec fn sn_boxv(&self) -> nat {
        crh_elems_spec(
            &self.constants.poseidon,
            self.use_poseidon,
            self.sn_lessv(),
            self.sn_plusv(),
        )
    }

    pub open spec fn sn_rootv(&self) -> nat {
        membership_root_spec(
            &self.constants.poseidon,
            self.use_poseidon,
            self.sn_boxv(),
            self.sn_path1(),
            self.sn_path2(),
        )
    }

    pub open spec fn tsnv(&self) -> nat {
        mimc_prf_spec(
            self.skv(),
            tsn_hash_spec(&self.constants, self.use_poseidon, self.rhov(), self.rolev(), self.jv()),
            self.constants.mimc.prf_tsn@,
            self.exp(),
        )
    }

    pub open spec fn hv(&self) -> nat {
        mimc_prf_spec(
            self.skv(),
            h_hash_spec(&self.constants, self.use_poseidon, self.h_sigv(), self.rolev()),
            self.constants.mimc.prf_pk@,
            self.exp(),
        )
    }

    pub open spec fn priorityv(&self) -> nat {
        mimc_prf_spec(
            self.skv(),
            priority_hash_spec(
                &self.constants,
                self.use_poseidon,
                self.rolev(),
                self.seedv(),
                self.jv(),
            ),
            self.constants.mimc.prf_priority@,
            self.exp(),
        )
    }

    pub open spec fn seed_compv(&self) -> nat {
        mimc_prf_spec(
            self.skv(),
            seed_comp_hash_spec(self.roundv(), self.jv()),
            self.constants.mimc.prf_seed@,
            self.exp(),
        )
    }

    /// Whether one PRF instance runs without a zero round sum.
    pub open spec fn prf_ok(&self, input: nat, table: Seq<Fe>) -> bool {
        mimc_ok(self.skv(), input, table, table.len() as int, self.exp())
    }

    /// Whether the witness satisfies every enforced relation of the
    /// statement: all witness cells present, every PRF round sum invertible,
    /// the epoch within range, the mode's membership paths satisfiable, the
    /// ticket index strictly below the number of selections, and the serial
    /// number strictly inside its gap.
    pub open spec fn synthesize_ok(&self) -> bool {
        &&& self.witness_present()
        &&& self.prf_ok(0, self.constants.mimc.prf_addr@)
        &&& self.fs_startv() <= self.rolev()
        &&& self.rolev() - self.fs_startv() < 0x1000000000
        &&& membership_ok_spec(
            &self.constants.poseidon,
            self.use_poseidon,
            self.cm_xv(),
            self.cm_path2(),
        )
        &&& sel_prfs_ok(&self.constants, self.skv(), self.rs_hashv())
        &&& self.jv() < self.num_selv()
        &&& self.prf_ok(self.rhov(), self.constants.mimc.prf_sn@)
        &&& gap_ok(
            self.snv(),
            self.aux_input.sn_less_diff->0.val(),
            self.aux_input.sn_plus_diff->0.val(),
        )
        &&& membership_ok_spec(
            &self.constants.poseidon,
            self.use_poseidon,
            self.sn_boxv(),
            self.sn_path2(),
        )
        &&& self.prf_ok(
            tsn_hash_spec(&self.constants, self.use_poseidon, self.rhov(), self.rolev(), self.jv()),
            self.constants.mimc.prf_tsn@,
        )
        &&& self.prf_ok(
            h_hash_spec(&self.constants, self.use_poseidon, self.h_sigv(), self.rolev()),
            self.constants.mimc.prf_pk@,
        )
        &&& (self.is_bp ==> self.prf_ok(
            priority_hash_spec(
                &self.constants,
                self.use_poseidon,
                self.rolev(),
                self.seedv(),
                self.jv(),
            ),
            self.constants.mimc.prf_priority@,
        ))
        &&& (self.is_bp ==> self.prf_ok(
            seed_comp_hash_spec(self.roundv(), self.jv()),
            self.constants.mimc.prf_seed@,
        ))
    }
}


/// The witness values of one statement, gathered out of their optional
/// cells.
struct Gathered {
    a_sk: Fe,
    role: u64,
    seed: Fe,
    h_sig: Fe,
    fs_tree_start: u64,
    rho: Fe,
    value: u64,
    s: Js,
    j_i: u64,
    sn_less_diff: Fe,
    sn_plus_diff: Fe,
    bp_r: u64,
    cm_p1: Vec<(Fe, bool)>,
    sn_p1: Vec<(Fe, bool)>,
    cm_p2: Vec<([Fe; 8], u8)>,
    sn_p2: Vec<([Fe; 8], u8)>,
}

impl AnonStake {
    /// Gathers every witness cell the statement reads, failing on the first
    /// missing one.
    fn gather(&self) -> (r: Result<Gathered, SynthesisError>)
        requires
            self.wf(),
        ensures
            r is Ok <==> self.witness_present(),
            r matches Ok(w) ==> self.aux_input.a_sk matches Some(v) && v == w.a_sk
                && self.pub_input.role == Some(w.role) && (self.pub_input.seed matches Some(v) && v
                == w.seed) && (self.pub_input.h_sig matches Some(v) && v == w.h_sig)
                && self.aux_input.fs_tree_start == Some(w.fs_tree_start)
                && (self.aux_input.coin.rho matches Some(v) && v == w.rho)
                && self.aux_input.coin.value == Some(w.value) && (self.aux_input.coin.s
                matches Some(v) && v == w.s) && self.aux_input.j_i == Some(w.j_i)
                && (self.aux_input.sn_less_diff matches Some(v) && v == w.sn_less_diff)
                && (self.aux_input.sn_plus_diff matches Some(v) && v == w.sn_plus_diff)
                && (self.is_bp ==> self.bp_pub_input.r == Some(w.bp_r)) && (self.use_poseidon
                ==> w.cm_p2@ =~= self.cm_path2() && w.sn_p2@ =~= self.sn_path2())
                && (!self.use_poseidon ==> w.cm_p1@ =~= self.cm_path1() && w.sn_p1@
                =~= self.sn_path1()) && path1_wf(w.cm_p1@) && path1_wf(w.sn_p1@) && path2_wf(
                w.cm_p2@,
            ) && path2_wf(w.sn_p2@) && w.cm_p1@.len() < 63 && w.sn_p1@.len() < 63,
            r is Err ==> r == Err::<Gathered, SynthesisError>(SynthesisError::AssignmentMissing),
    {
        let a_sk = match &self.aux_input.a_sk {
            Some(v) => *v,
            None => { return Err(SynthesisError::AssignmentMissing) },
        };
        let role = match &self.pub_input.role {
            Some(v) => *v,
            None => { return Err(SynthesisError::AssignmentMissing) },
        };
        let seed = match &self.pub_input.seed {
            Some(v) => *v,
            None => { return Err(SynthesisError::AssignmentMissing) },
        };
        let h_sig = match &self.pub_input.h_sig {
            Some(v) => *v,
            None => { return Err(SynthesisError::AssignmentMissing) },
        };
        let fs_tree_start = match &self.aux_input.fs_tree_start {
            Some(v) => *v,
            None => { return Err(SynthesisError::AssignmentMissing) },
        };
        if self.aux_input.fs_witness.is_none() {
            return Err(SynthesisError::AssignmentMissing);
        }
        let rho = match &self.aux_input.coin.rho {
            Some(v) => *v,
            None => { return Err(SynthesisError::AssignmentMissing) },
        };
        let value = match &self.aux_input.coin.value {
            Some(v) => *v,
            None => { return Err(SynthesisError::AssignmentMissing) },
        };
        let s = match &self.aux_input.coin.s {
            Some(v) => *v,
            None => { return Err(SynthesisError::AssignmentMissing) },
        };
        let j_i = match &self.aux_input.j_i {
            Some(v) => *v,
            None => { return Err(SynthesisError::AssignmentMissing) },
        };
        let sn_less_diff = match &self.aux_input.sn_less_diff {
            Some(v) => *v,
            None => { return Err(SynthesisError::AssignmentMissing) },
        };
        let sn_plus_diff = match &self.aux_input.sn_plus_diff {
            Some(v) => *v,
            None => { return Err(SynthesisError::AssignmentMissing) },
        };
        let bp_r: u64 = if self.is_bp {
            match &self.bp_pub_input.r {
                Some(v) => *v,
                None => { return Err(SynthesisError::AssignmentMissing) },
            }
        } else {
            0
        };
        let mut cm_p1: Vec<(Fe, bool)> = Vec::new();
        let mut sn_p1: Vec<(Fe, bool)> = Vec::new();
        let mut cm_p2: Vec<([Fe; 8], u8)> = Vec::new();
        let mut sn_p2: Vec<([Fe; 8], u8)> = Vec::new();
        if self.use_poseidon {
            cm_p2 = match unwrap_path2(&self.aux_input.cm_poseidon_path) {
                Ok(p) => p,
                Err(e) => { return Err(e) },
            };
            sn_p2 = match unwrap_path2(&self.aux_input.sn_poseidon_path) {
                Ok(p) => p,
                Err(e) => { return Err(e) },
            };
        } else {
            cm_p1 = match unwrap_path1(&self.aux_input.cm_merkle_path) {
                Ok(p) => p,
                Err(e) => { return Err(e) },
            };
            sn_p1 = match unwrap_path1(&self.aux_input.sn_merkle_path) {
                Ok(p) => p,
                Err(e) => { return Err(e) },
            };
        }
        Ok(
            Gathered {
                a_sk,
                role,
                seed,
                h_sig,
                fs_tree_start,
                rho,
                value,
                s,
                j_i,
                sn_less_diff,
                sn_plus_diff,
                bp_r,
                cm_p1,
                sn_p1,
                cm_p2,
                sn_p2,
            },
        )
    }
}

/// A fresh vector holding the same bits.
fn copy_bits(v: &Vec<bool>) -> (r: Vec<bool>)
    ensures
        r@ =~= v@,
{
    let mut out: Vec<bool> = Vec::new();
    let mut i: usize = 0;
    let n = v.len();
    while i < n
        invariant
            i <= n,
            n == v@.len(),
            out@ =~= v@.take(i as int),
        decreases n - i,
    {
        out.push(v[i]);
        proof {
            assert(v@.take(i + 1) =~= v@.take(i as int).push(v@[i as int]));
        }
        i += 1;
    }
    proof {
        assert(v@.take(n as int) =~= v@);
    }
    out
}

/// Two bit vectors joined into a fresh one.
fn join_bits(a: &Vec<bool>, b: &Vec<bool>) -> (r: Vec<bool>)
    ensures
        r@ =~= a@ + b@,
{
    let mut out = copy_bits(a);
    let mut tail = copy_bits(b);
    out.append(&mut tail);
    out
}

/// The low eleven bits of the ticket index, together with their value.
fn ticket_bits(j_i: u64) -> (r: (Vec<bool>, u64))
    ensures
        r.0@.len() == 11,
        r.0@ =~= nat_bits_le((j_i % 2048) as nat, 11),
        r.1 == j_i % 2048,
        bits_val(r.0@) == r.1 as nat,
{
    let mut bits = u64_to_bits_le(j_i);
    proof {
        lemma_bits_slice_val(bits@, 0, 11);
        assert(bits@.subrange(0, 11) =~= bits@.take(11));
        lemma2_to64();
        vstd::arithmetic::div_mod::lemma_div_basics(j_i as int);
        assert((j_i as nat) / pow2(0) == j_i as nat);
        assert(pow2(11) == 2048) by {
            lemma2_to64();
        }
    }
    bits.truncate(11);
    proof {
        lemma_bits_val_unique(bits@);
    }
    (bits, j_i % 2048)
}

/// Unwraps a two-ary path, failing on a missing level.
fn unwrap_path1(p: &Vec<Option<(Fe, bool)>>) -> (r: Result<Vec<(Fe, bool)>, SynthesisError>)
    ensures
        r is Ok <==> (forall|i: int| 0 <= i < p@.len() ==> (#[trigger] p@[i]) is Some),
        r matches Ok(path) ==> path@ =~= p@.map_values(|o: Option<(Fe, bool)>| o->0),
        r is Err ==> r == Err::<Vec<(Fe, bool)>, SynthesisError>(SynthesisError::AssignmentMissing),
{
    let mut out: Vec<(Fe, bool)> = Vec::new();
    let mut i: usize = 0;
    let n = p.len();
    while i < n
        invariant
            i <= n,
            n == p@.len(),
            forall|k: int| 0 <= k < i ==> (#[trigger] p@[k]) is Some,
            out@ =~= p@.take(i as int).map_values(|o: Option<(Fe, bool)>| o->0),
        decreases n - i,
    {
        match &p[i] {
            Some(e) => {
                out.push(*e);
            },
            None => {
                return Err(SynthesisError::AssignmentMissing);
            },
        }
        proof {
            assert(p@.take(i + 1) =~= p@.take(i as int).push(p@[i as int]));
            assert(p@.take(i + 1).map_values(|o: Option<(Fe, bool)>| o->0) =~= p@.take(
                i as int,
            ).map_values(|o: Option<(Fe, bool)>| o->0).push(p@[i as int]->0));
        }
        i += 1;
    }
    proof {
        assert(p@.take(n as int) =~= p@);
    }
    Ok(out)
}

/// Unwraps an eight-ary path, failing on a missing level.
fn unwrap_path2(p: &Vec<Option<([Fe; 8], u8)>>) -> (r: Result<
    Vec<([Fe; 8], u8)>,
    SynthesisError,
>)
    ensures
        r is Ok <==> (forall|i: int| 0 <= i < p@.len() ==> (#[trigger] p@[i]) is Some),
        r matches Ok(path) ==> path@ =~= p@.map_values(|o: Option<([Fe; 8], u8)>| o->0),
        r is Err ==> r == Err::<Vec<([Fe; 8], u8)>, SynthesisError>(
            SynthesisError::AssignmentMissing,
        ),
{
    let mut out: Vec<([Fe; 8], u8)> = Vec::new();
    let mut i: usize = 0;
    let n = p.len();
    while i < n
        invariant
            i <= n,
            n == p@.len(),
            forall|k: int| 0 <= k < i ==> (#[trigger] p@[k]) is Some,
            out@ =~= p@.take(i as int).map_values(|o: Option<([Fe; 8], u8)>| o->0),
        decreases n - i,
    {
        match &p[i] {
            Some(e) => {
                out.push(*e);
            },
            None => {
                return Err(SynthesisError::AssignmentMissing);
            },
        }
        proof {
            assert(p@.take(i + 1) =~= p@.take(i as int).push(p@[i as int]));
            assert(p@.take(i + 1).map_values(|o: Option<([Fe; 8], u8)>| o->0) =~= p@.take(
                i as int,
            ).map_values(|o: Option<([Fe; 8], u8)>| o->0).push(p@[i as int]->0));
        }
        i += 1;
    }
    proof {
        assert(p@.take(n as int) =~= p@);
    }
    Ok(out)
}

/// The packed identity over the tree-start bits, the forward-secure public
/// key and the address key.
pub fn constrain_packed_values(fs_start_bits: &Vec<bool>, fs_pk: &Fe, a_pk: &Fe) -> (r: Fe)
    requires
        fs_start_bits@.len() == 64,
        fs_pk.wf(),
        a_pk.wf(),
    ensures
        r.wf(),
        r.val() == pedersen_x_of(
            63,
            fs_start_bits@ + nat_bits_le(fs_pk.val(), 255) + nat_bits_le(a_pk.val(), 255),
        ),
{
    let fs_pk_bits = fs_pk.to_bits_le();
    let a_pk_bits = a_pk.to_bits_le();
    proof {
        lemma_bits_val_unique(fs_pk_bits@);
        lemma_bits_val_unique(a_pk_bits@);
    }
    let head = join_bits(fs_start_bits, &fs_pk_bits);
    let all = join_bits(&head, &a_pk_bits);
    proof {
        assert(all@ =~= fs_start_bits@ + nat_bits_le(fs_pk.val(), 255) + nat_bits_le(
            a_pk.val(),
            255,
        ));
    }
    crh(&all)
}

/// The hiding coin commitment over the value bits, the packed identity and
/// the nonce, randomized by the coin's randomness; returns the commitment's
/// u-coordinate and the value bits.
pub fn constrain_coin_commitment(value: u64, full_pk: &Fe, rho: &Fe, s: &Js) -> (r: (Fe, Vec<
    bool,
>))
    requires
        full_pk.wf(),
        rho.wf(),
        s.wf(),
    ensures
        r.0.wf(),
        r.0.val() == note_commit_x(
            note_contents_spec(value as nat, full_pk.val(), rho.val()),
            s.val(),
        ),
        r.1@ =~= nat_bits_le(value as nat, 64),
{
    let value_bits = u64_to_bits_le(value);
    let full_pk_bits = full_pk.to_bits_le();
    let rho_bits = rho.to_bits_le();
    proof {
        lemma_bits_val_unique(value_bits@);
        lemma_bits_val_unique(full_pk_bits@);
        lemma_bits_val_unique(rho_bits@);
    }
    let head = join_bits(&value_bits, &full_pk_bits);
    let contents = join_bits(&head, &rho_bits);
    proof {
        assert(contents@ =~= note_contents_spec(value as nat, full_pk.val(), rho.val()));
    }
    let cm = note_commitment_x(&contents, s);
    (cm, value_bits)
}

impl AnonStake {

    /// The per-ticket tag: the keyed PRF over the pre-hash of the nonce, the
    /// role and the ticket index.
    fn derive_tsn(
        &self,
        a_sk: &Fe,
        rho: &Fe,
        role_fe: &Fe,
        role_bits: &Vec<bool>,
        j_bits: &Vec<bool>,
        j_small: u64,
    ) -> (r: Result<Fe, SynthesisError>)
        requires
            self.wf(),
            self.aux_input.a_sk matches Some(v) && v == a_sk,
            self.aux_input.coin.rho matches Some(v) && v == rho,
            a_sk.wf(),
            rho.wf(),
            role_fe.wf(),
            role_fe.val() == self.rolev(),
            role_bits@ =~= nat_bits_le(self.rolev(), 64),
            j_bits@ =~= nat_bits_le(self.jv(), 11),
            j_small as nat == self.jv(),
        ensures
            r is Ok <==> self.prf_ok(
                tsn_hash_spec(
                    &self.constants,
                    self.use_poseidon,
                    self.rhov(),
                    self.rolev(),
                    self.jv(),
                ),
                self.constants.mimc.prf_tsn@,
            ),
            r matches Ok(v) ==> v.wf() && v.val() == self.tsnv(),
            r is Err ==> r == Err::<Fe, SynthesisError>(SynthesisError::DivisionByZero),
    {
        let zero = Fe::zero();
        let tsn_hash = if self.use_poseidon {
            let j_fe = Fe::from_u64(j_small);
            let mut input: Vec<Fe> = Vec::new();
            input.push(*rho);
            input.push(*role_fe);
            input.push(j_fe);
            input.push(zero);
            input.push(zero);
            input.push(zero);
            input.push(zero);
            input.push(zero);
            proof {
                assert(fe_vals(input@) =~= seq![
                    self.rhov(),
                    self.rolev(),
                    self.jv(),
                    0nat,
                    0,
                    0,
                    0,
                    0,
                ]);
            }
            poseidon(&self.constants.poseidon, &input)
        } else {
            let rho_bits = rho.to_bits_le();
            proof {
                lemma_bits_val_unique(rho_bits@);
            }
            let head = join_bits(&rho_bits, role_bits);
            let all = join_bits(&head, j_bits);
            proof {
                assert(all@ =~= nat_bits_le(self.rhov(), 255) + nat_bits_le(self.rolev(), 64)
                    + nat_bits_le(self.jv(), 11));
            }
            crh(&all)
        };
        mimc_prf(&self.constants.mimc, &self.constants.mimc.prf_tsn, a_sk, &tsn_hash)
    }

    /// The identity tag: the keyed PRF over the pre-hash of the public
    /// commitment and the role.
    fn derive_h(&self, a_sk: &Fe, h_sig: &Fe, role_fe: &Fe, role_bits: &Vec<bool>) -> (r: Result<
        Fe,
        SynthesisError,
    >)
        requires
            self.wf(),
            self.aux_input.a_sk matches Some(v) && v == a_sk,
            self.pub_input.h_sig matches Some(v) && v == h_sig,
            a_sk.wf(),
            h_sig.wf(),
            role_fe.wf(),
            role_fe.val() == self.rolev(),
            role_bits@ =~= nat_bits_le(self.rolev(), 64),
        ensures
            r is Ok <==> self.prf_ok(
                h_hash_spec(&self.constants, self.use_poseidon, self.h_sigv(), self.rolev()),
                self.constants.mimc.prf_pk@,
            ),
            r matches Ok(v) ==> v.wf() && v.val() == self.hv(),
            r is Err ==> r == Err::<Fe, SynthesisError>(SynthesisError::DivisionByZero),
    {
        let zero = Fe::zero();
        let h_hash = if self.use_poseidon {
            let mut input: Vec<Fe> = Vec::new();
            input.push(*h_sig);
            input.push(*role_fe);
            input.push(zero);
            input.push(zero);
            input.push(zero);
            input.push(zero);
            input.push(zero);
            input.push(zero);
            proof {
                assert(fe_vals(input@) =~= seq![
                    self.h_sigv(),
                    self.rolev(),
                    0nat,
                    0,
                    0,
                    0,
                    0,
                    0,
                ]);
            }
            poseidon(&self.constants.poseidon, &input)
        } else {
            let h_sig_bits = h_sig.to_bits_le();
            proof {
                lemma_bits_val_unique(h_sig_bits@);
            }
            let all = join_bits(&h_sig_bits, role_bits);
            proof {
                assert(all@ =~= nat_bits_le(self.h_sigv(), 255) + nat_bits_le(self.rolev(), 64));
            }
            crh(&all)
        };
        mimc_prf(&self.constants.mimc, &self.constants.mimc.prf_pk, a_sk, &h_hash)
    }

    /// The block-proposer tags: the priority, the committed round number and
    /// the seed component.
    fn derive_bp(
        &self,
        a_sk: &Fe,
        role_fe: &Fe,
        role_bits: &Vec<bool>,
        seed: &Fe,
        seed_bits: &Vec<bool>,
        j_bits: &Vec<bool>,
        j_small: u64,
        bp_r: u64,
    ) -> (r: Result<BlockProposerOutputs, SynthesisError>)
        requires
            self.wf(),
            self.is_bp,
            self.aux_input.a_sk matches Some(v) && v == a_sk,
            self.pub_input.seed matches Some(v) && v == seed,
            self.bp_pub_input.r matches Some(v) && v == bp_r,
            a_sk.wf(),
            seed.wf(),
            role_fe.wf(),
            role_fe.val() == self.rolev(),
            role_bits@ =~= nat_bits_le(self.rolev(), 64),
            seed_bits@ =~= nat_bits_le(self.seedv(), 255),
            j_bits@ =~= nat_bits_le(self.jv(), 11),
            j_small as nat == self.jv(),
        ensures
            r is Ok <==> self.prf_ok(
                priority_hash_spec(
                    &self.constants,
                    self.use_poseidon,
                    self.rolev(),
                    self.seedv(),
                    self.jv(),
                ),
                self.constants.mimc.prf_priority@,
            ) && self.prf_ok(
                seed_comp_hash_spec(self.roundv(), self.jv()),
                self.constants.mimc.prf_seed@,
            ),
            r matches Ok(bp) ==> bp.priority.wf() && bp.priority.val() == self.priorityv()
                && bp.round.wf() && bp.round.val() == self.roundv() && bp.seed_comp.wf()
                && bp.seed_comp.val() == self.seed_compv(),
            r is Err ==> r == Err::<BlockProposerOutputs, SynthesisError>(
                SynthesisError::DivisionByZero,
            ),
    {
        let zero = Fe::zero();
        let priority_hash = if self.use_poseidon {
            let j_fe = Fe::from_u64(j_small);
            let mut input: Vec<Fe> = Vec::new();
            input.push(*role_fe);
            input.push(*seed);
            input.push(j_fe);
            input.push(zero);
            input.push(zero);
            input.push(zero);
            input.push(zero);
            input.push(zero);
            proof {
                assert(fe_vals(input@) =~= seq![
                    self.rolev(),
                    self.seedv(),
                    self.jv(),
                    0nat,
                    0,
                    0,
                    0,
                    0,
                ]);
            }
            poseidon(&self.constants.poseidon, &input)
        } else {
            let head = join_bits(role_bits, seed_bits);
            let all = join_bits(&head, j_bits);
            proof {
                assert(all@ =~= nat_bits_le(self.rolev(), 64) + nat_bits_le(self.seedv(), 255)
                    + nat_bits_le(self.jv(), 11));
            }
            crh(&all)
        };
        let priority = match mimc_prf(
            &self.constants.mimc,
            &self.constants.mimc.prf_priority,
            a_sk,
            &priority_hash,
        ) {
            Ok(v) => v,
            Err(e) => { return Err(e) },
        };
        let round_fe = Fe::from_u64(bp_r);
        let round_bits = u64_to_bits_le(bp_r);
        proof {
            lemma_bits_val_unique(round_bits@);
        }
        let all = join_bits(&round_bits, j_bits);
        proof {
            assert(all@ =~= nat_bits_le(self.roundv(), 64) + nat_bits_le(self.jv(), 11));
        }
        let sc_hash = crh(&all);
        let seed_comp = match mimc_prf(
            &self.constants.mimc,
            &self.constants.mimc.prf_seed,
            a_sk,
            &sc_hash,
        ) {
            Ok(v) => v,
            Err(e) => { return Err(e) },
        };
        Ok(BlockProposerOutputs { priority, round: round_fe, seed_comp })
    }

    /// Synthesizes the full statement, returning the public input vector and
    /// the exposed roots. It succeeds exactly when every witness value is
    /// present and every enforced relation holds of the witness.
    #[verifier::rlimit(100)]
    #[verifier::spinoff_prover]
    pub fn synthesize(&self) -> (r: Result<PublicOutputs, SynthesisError>)
        requires
            self.wf(),
        ensures
            r is Ok <==> self.synthesize_ok(),
            r matches Ok(out) ==> out.role.wf() && out.role.val() == self.rolev() && out.seed.wf()
                && out.seed.val() == self.seedv() && out.tsn.wf() && out.tsn.val() == self.tsnv()
                && out.h_sig.wf() && out.h_sig.val() == self.h_sigv() && out.h.wf() && out.h.val()
                == self.hv() && out.cm_root.wf() && out.cm_root.val() == self.cm_rootv()
                && out.sn_root.wf() && out.sn_root.val() == self.sn_rootv() && (out.bp
                is Some <==> self.is_bp) && (out.bp matches Some(bp) ==> bp.priority.wf()
                && bp.priority.val() == self.priorityv() && bp.round.wf() && bp.round.val()
                == self.roundv() && bp.seed_comp.wf() && bp.seed_comp.val() == self.seed_compv()),
            r == Err::<PublicOutputs, SynthesisError>(SynthesisError::AssignmentMissing)
                ==> !self.witness_present(),
    {
        // gather the witness, failing on any missing cell
        let w = match self.gather() {
            Ok(w) => w,
            Err(e) => { return Err(e) },
        };
        let Gathered {
            a_sk,
            role,
            seed,
            h_sig,
            fs_tree_start,
            rho,
            value,
            s,
            j_i,
            sn_less_diff,
            sn_plus_diff,
            bp_r,
            cm_p1,
            sn_p1,
            cm_p2,
            sn_p2,
        } = w;
        let fsw = match &self.aux_input.fs_witness {
            Some(x) => x,
            None => { return Err(SynthesisError::AssignmentMissing) },
        };
        // the address key
        let zero = Fe::zero();
        let a_pk = match mimc_prf(&self.constants.mimc, &self.constants.mimc.prf_addr, &a_sk, &zero)
         {
            Ok(v) => v,
            Err(e) => { return Err(e) },
        };
        // the forward-secure public key, bound to the role
        let (role_fe, role_bits, fs_start_bits, fs_pk) = match forward_secure_tree(
            &self.constants.poseidon,
            self.use_poseidon,
            role,
            fs_tree_start,
            fsw,
        ) {
            Ok(t) => t,
            Err(e) => { return Err(e) },
        };
        // the packed identity and the coin commitment
        let full_pk = constrain_packed_values(&fs_start_bits, &fs_pk, &a_pk);
        let (cm_x, value_bits) = constrain_coin_commitment(value, &full_pk, &rho, &s);
        // membership of the commitment
        let cm_root = match coin_commitment_membership(
            &self.constants.poseidon,
            self.use_poseidon,
            &cm_x,
            &cm_p1,
            &cm_p2,
        ) {
            Ok(root) => root,
            Err(e) => { return Err(e) },
        };
        // the eligibility hash and the sortition sampler
        let seed_bits = seed.to_bits_le();
        proof {
            lemma_bits_val_unique(seed_bits@);
        }
        let rs_bits = join_bits(&role_bits, &seed_bits);
        proof {
            assert(rs_bits@ =~= nat_bits_le(self.rolev(), 64) + nat_bits_le(self.seedv(), 255));
        }
        let hash_role_seed = crh(&rs_bits);
        let num_selections = match calc_num_selections(
            &self.constants,
            &value_bits,
            &hash_role_seed,
            &a_sk,
        ) {
            Ok(n) => n,
            Err(e) => { return Err(e) },
        };
        // the ticket index, strictly below the number of selections
        let (j_bits, j_small) = ticket_bits(j_i);
        if !(j_small < num_selections) {
            return Err(SynthesisError::Unsatisfiable);
        }
        // the serial number and its gap
        let sn = match mimc_prf(&self.constants.mimc, &self.constants.mimc.prf_sn, &a_sk, &rho) {
            Ok(v) => v,
            Err(e) => { return Err(e) },
        };
        let (sn_less, sn_plus) = match serial_number_gap(&sn, &sn_less_diff, &sn_plus_diff) {
            Ok(b) => b,
            Err(e) => { return Err(e) },
        };
        let sn_box = crh_poseidon_or_pedersen_elems(
            &self.constants.poseidon,
            self.use_poseidon,
            &sn_less,
            &sn_plus,
        );
        let sn_root = match serial_number_nonmembership(
            &self.constants.poseidon,
            self.use_poseidon,
            &sn_box,
            &sn_p1,
            &sn_p2,
        ) {
            Ok(root) => root,
            Err(e) => { return Err(e) },
        };
        // the per-ticket and identity tags
        let tsn = match self.derive_tsn(&a_sk, &rho, &role_fe, &role_bits, &j_bits, j_small) {
            Ok(v) => v,
            Err(e) => { return Err(e) },
        };
        let h = match self.derive_h(&a_sk, &h_sig, &role_fe, &role_bits) {
            Ok(v) => v,
            Err(e) => { return Err(e) },
        };
        // the block-proposer tags
        let bp = if self.is_bp {
            match self.derive_bp(&a_sk, &role_fe, &role_bits, &seed, &seed_bits, &j_bits, j_small, bp_r) {
                Ok(v) => Some(v),
                Err(e) => { return Err(e) },
            }
        } else {
            None
        };
        Ok(
            PublicOutputs {
                role: role_fe,
                seed,
                tsn,
                h_sig,
                h,
                cm_root,
                sn_root,
                bp,
            },
        )
    }

    /// Turns the statement into a cursor over the batch of related proof
    /// tasks that differ only in the ticket index.
    pub fn into_iter(self) -> (r: AnonStakeIterator)
        ensures
            r.a == self,
    {
        AnonStakeIterator { a: self }
    }
}

/// A cursor over the proof tasks of one coin and round: the same statement
/// with the ticket index incremented from task to task.
pub struct AnonStakeIterator {
    pub a: AnonStake,
}

impl AnonStakeIterator {
    /// The current proof task.
    pub fn get_copy(&self) -> (r: Option<&AnonStake>)
        ensures
            r matches Some(x) ==> *x == self.a,
            (r is Some),
    {
        Some(&self.a)
    }

    /// Advances to the next ticket index, returning the index the cursor
    /// held before, when one is set.
    pub fn next(&mut self) -> (r: Option<u64>)
        requires
            old(self).a.aux_input.j_i matches Some(j) ==> j < u64::MAX,
        ensures
            r == old(self).a.aux_input.j_i,
            final(self).a == (AnonStake {
                aux_input: AuxInput {
                    j_i: match old(self).a.aux_input.j_i {
                        Some(j) => Some((j + 1) as u64),
                        None => None,
                    },
                    ..old(self).a.aux_input
                },
                ..old(self).a
            }),
    {
        match self.a.aux_input.j_i {
            Some(j) => {
                self.a.aux_input.j_i = Some(j + 1);
                Some(j)
            },
            None => None,
        }
    }
}


/// A two-ary path of `n` empty witness cells.
fn empty_path1(n: usize) -> (r: Vec<Option<(Fe, bool)>>)
    ensures
        r@.len() == n,
        forall|i: int| 0 <= i < n ==> (#[trigger] r@[i]) is None,
{
    let mut out: Vec<Option<(Fe, bool)>> = Vec::new();
    let mut i: usize = 0;
    while i < n
        invariant
            i <= n,
            out@.len() == i,
            forall|k: int| 0 <= k < i ==> (#[trigger] out@[k]) is None,
        decreases n - i,
    {
        out.push(None);
        i += 1;
    }
    out
}

/// An eight-ary path of `n` empty witness cells.
fn empty_path2(n: usize) -> (r: Vec<Option<([Fe; 8], u8)>>)
    ensures
        r@.len() == n,
        forall|i: int| 0 <= i < n ==> (#[trigger] r@[i]) is None,
{
    let mut out: Vec<Option<([Fe; 8], u8)>> = Vec::new();
    let mut i: usize = 0;
    while i < n
        invariant
            i <= n,
            out@.len() == i,
            forall|k: int| 0 <= k < i ==> (#[trigger] out@[k]) is None,
        decreases n - i,
    {
        out.push(None);
        i += 1;
    }
    out
}

/// A two-ary path of `n` random witness cells.
fn random_path1(n: usize) -> (r: Vec<Option<(Fe, bool)>>)
    ensures
        r@.len() == n,
        opt_path1_wf(r@),
        forall|i: int| 0 <= i < n ==> (#[trigger] r@[i]) is Some,
{
    let mut out: Vec<Option<(Fe, bool)>> = Vec::new();
    let mut i: usize = 0;
    while i < n
        invariant
            i <= n,
            out@.len() == i,
            opt_path1_wf(out@),
            forall|k: int| 0 <= k < i ==> (#[trigger] out@[k]) is Some,
        decreases n - i,
    {
        out.push(Some((random_fe(), random_bool())));
        i += 1;
    }
    out
}

/// An eight-ary path of `n` random witness cells with in-range indices.
fn random_path2(n: usize) -> (r: Vec<Option<([Fe; 8], u8)>>)
    ensures
        r@.len() == n,
        opt_path2_wf(r@),
        forall|i: int| 0 <= i < n ==> (#[trigger] r@[i]) is Some,
{
    let mut out: Vec<Option<([Fe; 8], u8)>> = Vec::new();
    let mut i: usize = 0;
    while i < n
        invariant
            i <= n,
            out@.len() == i,
            opt_path2_wf(out@),
            forall|k: int| 0 <= k < i ==> (#[trigger] out@[k]) is Some,
        decreases n - i,
    {
        let sibs: [Fe; 8] = [
            random_fe(),
            random_fe(),
            random_fe(),
            random_fe(),
            random_fe(),
            random_fe(),
            random_fe(),
            random_fe(),
        ];
        let idx = random_u8() % 8;
        out.push(Some((sibs, idx)));
        i += 1;
    }
    out
}

impl AnonStake {
    /// A statement with no witness values, as used to size a proving key.
    pub fn init_empty(constants: Constants, is_bp: bool, merkle_height: usize, use_poseidon: bool) -> (r: AnonStake)
        requires
            constants.wf(),
            merkle_height < 63,
        ensures
            r.wf(),
            !r.witness_present(),
            r.is_bp == is_bp,
            r.use_poseidon == use_poseidon,
            r.constants == constants,
            r.pub_input.role is None,
            r.pub_input.seed is None,
            r.pub_input.h_sig is None,
            r.aux_input.a_sk is None,
            r.aux_input.fs_tree_start is None,
            r.aux_input.fs_witness is None,
            r.aux_input.coin.value is None,
            r.aux_input.coin.rho is None,
            r.aux_input.coin.s is None,
            r.aux_input.j_i is None,
            r.aux_input.sn_less_diff is None,
            r.aux_input.sn_plus_diff is None,
            r.bp_pub_input.r is None,
            r.aux_input.cm_merkle_path@.len() == merkle_height,
            r.aux_input.sn_merkle_path@.len() == merkle_height,
            r.aux_input.cm_poseidon_path@.len() == merkle_height,
            r.aux_input.sn_poseidon_path@.len() == merkle_height,
            forall|i: int|
                0 <= i < merkle_height ==> (#[trigger] r.aux_input.cm_merkle_path@[i]) is None
                    && (#[trigger] r.aux_input.sn_merkle_path@[i]) is None && (
                #[trigger] r.aux_input.cm_poseidon_path@[i]) is None && (
                #[trigger] r.aux_input.sn_poseidon_path@[i]) is None,
    {
        AnonStake {
            constants,
            is_bp,
            use_poseidon,
            pub_input: PubInput { role: None, seed: None, h_sig: None },
            aux_input: AuxInput {
                cm_merkle_path: empty_path1(merkle_height),
                sn_merkle_path: empty_path1(merkle_height),
                cm_poseidon_path: empty_path2(merkle_height),
                sn_poseidon_path: empty_path2(merkle_height),
                fs_witness: None,
                coin: Coin { value: None, rho: None, s: None },
                a_sk: None,
                fs_tree_start: None,
                sn_less_diff: None,
                sn_plus_diff: None,
                j_i: None,
            },
            bp_pub_input: BlockProposerPubInput { r: None },
            bp_aux_input: BlockProposerAuxInput,
        }
    }

    /// A statement with every witness cell filled at random, as used to
    /// count constraints; nothing ties the values together, so synthesis may
    /// fail its enforced relations.
    pub fn init_pure_random(constants: Constants, is_bp: bool, merkle_height: usize, use_poseidon: bool) -> (r: AnonStake)
        requires
            constants.wf(),
            merkle_height < 63,
        ensures
            r.wf(),
            r.witness_present(),
            r.is_bp == is_bp,
            r.use_poseidon == use_poseidon,
            r.constants == constants,
            r.aux_input.coin.value == Some(0x800000000000000u64),
            r.aux_input.j_i == Some(1u64),
            r.aux_input.cm_merkle_path@.len() == merkle_height,
            r.aux_input.sn_merkle_path@.len() == merkle_height,
            r.aux_input.cm_poseidon_path@.len() == merkle_height,
            r.aux_input.sn_poseidon_path@.len() == merkle_height,
    {
        AnonStake {
            constants,
            is_bp,
            use_poseidon,
            pub_input: PubInput {
                role: Some(random_u64()),
                seed: Some(random_fe()),
                h_sig: Some(random_fe()),
            },
            aux_input: AuxInput {
                cm_merkle_path: random_path1(merkle_height),
                sn_merkle_path: random_path1(merkle_height),
                cm_poseidon_path: random_path2(merkle_height),
                sn_poseidon_path: random_path2(merkle_height),
                fs_witness: Some(random_fs_witness()),
                coin: Coin {
                    value: Some(0x800000000000000),
                    rho: Some(random_fe()),
                    s: Some(random_js()),
                },
                a_sk: Some(random_fe()),
                fs_tree_start: Some(random_u64()),
                sn_less_diff: Some(random_fe()),
                sn_plus_diff: Some(random_fe()),
                j_i: Some(1),
            },
            bp_pub_input: BlockProposerPubInput { r: Some(random_u64()) },
            bp_aux_input: BlockProposerAuxInput,
        }
    }

    /// A statement with a random witness whose epoch fits the range check
    /// and whose gap offsets are one, as used to exercise proving end to
    /// end.
    pub fn init_testing(constants: Constants, is_bp: bool, merkle_height: usize, j_i: u64, use_poseidon: bool) -> (r: AnonStake)
        requires
            constants.wf(),
            merkle_height < 63,
        ensures
            r.wf(),
            r.witness_present(),
            r.is_bp == is_bp,
            r.use_poseidon == use_poseidon,
            r.constants == constants,
            r.fs_startv() <= r.rolev(),
            r.rolev() - r.fs_startv() < 0x1000000000,
            r.aux_input.sn_less_diff->0.val() == 1,
            r.aux_input.sn_plus_diff->0.val() == 1,
            r.aux_input.j_i == Some(j_i),
            r.aux_input.coin.value == Some(0x800000000000000u64),
            r.aux_input.cm_merkle_path@.len() == merkle_height,
            r.aux_input.sn_merkle_path@.len() == merkle_height,
            r.aux_input.cm_poseidon_path@.len() == merkle_height,
            r.aux_input.sn_poseidon_path@.len() == merkle_height,
    {
        let role = random_u64();
        let fs_tree_start: u64 = if role < 0x1000000000 {
            if role == 0 {
                0
            } else {
                random_u64() % role
            }
        } else {
            role - (random_u64() % 0x1000000000)
        };
        let one = Fe::from_u64(1);
        AnonStake {
            constants,
            is_bp,
            use_poseidon,
            pub_input: PubInput {
                role: Some(role),
                seed: Some(random_fe()),
                h_sig: Some(random_fe()),
            },
            aux_input: AuxInput {
                cm_merkle_path: random_path1(merkle_height),
                sn_merkle_path: random_path1(merkle_height),
                cm_poseidon_path: random_path2(merkle_height),
                sn_poseidon_path: random_path2(merkle_height),
                fs_witness: Some(random_fs_witness()),
                coin: Coin {
                    value: Some(0x800000000000000),
                    rho: Some(random_fe()),
                    s: Some(random_js()),
                },
                a_sk: Some(random_fe()),
                fs_tree_start: Some(fs_tree_start),
                sn_less_diff: Some(one),
                sn_plus_diff: Some(one),
                j_i: Some(j_i),
            },
            bp_pub_input: BlockProposerPubInput { r: Some(random_u64()) },
            bp_aux_input: BlockProposerAuxInput,
        }
    }
}

} // verus!
