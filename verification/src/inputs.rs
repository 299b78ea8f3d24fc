//! The statement's inputs: the public data, the coin, and the private
//! witness material, with every witness cell optional so that a statement can
//! be sized without concrete values; and builders for an empty, a random and
//! a testing instance.
use vstd::prelude::*;
use ff::Field;
use crate::field::Fe;
use crate::curve::Js;
use crate::fstree::FsWitness;
use crate::constants::fe_vec_wf;

verus! {

/// The publicly revealed statement data.
#[derive(Clone)]
pub struct PubInput {
    pub role: Option<u64>,
    pub seed: Option<Fe>,
    pub h_sig: Option<Fe>,
}

/// The staked coin being spent.
#[derive(Clone)]
pub struct Coin {
    pub value: Option<u64>,
    pub rho: Option<Fe>,
    pub s: Option<Js>,
}

/// All private witness material of one statement.
#[derive(Clone)]
pub struct AuxInput {
    pub cm_merkle_path: Vec<Option<(Fe, bool)>>,
    pub sn_merkle_path: Vec<Option<(Fe, bool)>>,
    pub cm_poseidon_path: Vec<Option<([Fe; 8], u8)>>,
    pub sn_poseidon_path: Vec<Option<([Fe; 8], u8)>>,
    pub fs_witness: Option<FsWitness>,
    pub coin: Coin,
    pub a_sk: Option<Fe>,
    pub fs_tree_start: Option<u64>,
    pub sn_less_diff: Option<Fe>,
    pub sn_plus_diff: Option<Fe>,
    pub j_i: Option<u64>,
}

/// The extra public data of a block-proposer statement.
#[derive(Clone)]
pub struct BlockProposerPubInput {
    pub r: Option<u64>,
}

/// The extra private data of a block-proposer statement; there is none.
#[derive(Clone)]
pub struct BlockProposerAuxInput;

/// Every present element of a two-ary path is canonical.
pub open spec fn opt_path1_wf(p: Seq<Option<(Fe, bool)>>) -> bool {
    forall|i: int| 0 <= i < p.len() ==> ((#[trigger] p[i]) matches Some(e) ==> e.0.wf())
}

/// Every present element of an eight-ary path is canonical, with its index
/// in range.
pub open spec fn opt_path2_wf(p: Seq<Option<([Fe; 8], u8)>>) -> bool {
    forall|i: int|
        0 <= i < p.len() ==> ((#[trigger] p[i]) matches Some(e) ==> fe_vec_wf(e.0@) && e.1 < 8)
}

impl PubInput {
    pub open spec fn wf(&self) -> bool {
        &&& (self.seed matches Some(v) ==> v.wf())
        &&& (self.h_sig matches Some(v) ==> v.wf())
    }
}

impl Coin {
    pub open spec fn wf(&self) -> bool {
        &&& (self.rho matches Some(v) ==> v.wf())
        &&& (self.s matches Some(v) ==> v.wf())
    }
}

impl AuxInput {
    pub open spec fn wf(&self) -> bool {
        &&& opt_path1_wf(self.cm_merkle_path@)
        &&& opt_path1_wf(self.sn_merkle_path@)
        &&& opt_path2_wf(self.cm_poseidon_path@)
        &&& opt_path2_wf(self.sn_poseidon_path@)
        &&& (self.fs_witness matches Some(w) ==> w.wf())
        &&& self.coin.wf()
        &&& (self.a_sk matches Some(v) ==> v.wf())
        &&& (self.sn_less_diff matches Some(v) ==> v.wf())
        &&& (self.sn_plus_diff matches Some(v) ==> v.wf())
        &&& self.cm_merkle_path@.len() < 63
        &&& self.sn_merkle_path@.len() < 63
}
}

/// Relies on ff::Field::random over the thread generator: a canonical field
/// element; nothing is promised of which one.
#[verifier::external_body]
pub(crate) fn random_fe() -> (r: Fe)
    ensures
        r.wf(),
{
    Fe { bytes: bls12_381::Scalar::random(&mut rand::rng()).to_bytes() }
}

/// Relies on ff::Field::random over the thread generator: a canonical jubjub
/// scalar; nothing is promised of which one.
#[verifier::external_body]
pub(crate) fn random_js() -> (r: Js)
    ensures
        r.wf(),
{
    Js { bytes: jubjub::Fr::random(&mut rand::rng()).to_bytes() }
}

/// Relies on rand::random: a machine word; nothing is promised of which one.
#[verifier::external_body]
pub(crate) fn random_u64() -> (r: u64) {
    rand::random()
}

/// Relies on rand::random: a bit; nothing is promised of which one.
#[verifier::external_body]
pub(crate) fn random_bool() -> (r: bool) {
    rand::random()
}

/// Relies on rand::random: a byte; nothing is promised of which one.
#[verifier::external_body]
pub(crate) fn random_u8() -> (r: u8) {
    rand::random()
}

/// A vector of random canonical field elements.
pub(crate) fn random_fe_vec(n: usize) -> (r: Vec<Fe>)
    ensures
        r@.len() == n,
        fe_vec_wf(r@),
{
    let mut out: Vec<Fe> = Vec::new();
    let mut i: usize = 0;
    while i < n
        invariant
            i <= n,
            out@.len() == i,
            fe_vec_wf(out@),
        decreases n - i,
    {
        out.push(random_fe());
        i += 1;
    }
    out
}

/// A random forward-secure witness: canonical values everywhere.
pub(crate) fn random_fs_witness() -> (r: FsWitness)
    ensures
        r.wf(),
{
    let sk0 = random_fe();
    let pk_x = random_fe_vec(3);
    let r_x = random_fe_vec(3);
    let mut tree: Vec<Vec<Vec<Fe>>> = Vec::new();
    let mut i: usize = 0;
    while i < 4
        invariant
            i <= 4,
            tree@.len() == i,
            forall|a: int| 0 <= a < i ==> (#[trigger] tree@[a])@.len() == 3,
            forall|a: int, b: int|
                0 <= a < i && 0 <= b < 3 ==> (#[trigger] tree@[a]@[b])@.len() == 8 && fe_vec_wf(
                    tree@[a]@[b]@,
                ),
        decreases 4 - i,
    {
        let mut level: Vec<Vec<Fe>> = Vec::new();
        let mut j: usize = 0;
        while j < 3
            invariant
                j <= 3,
                level@.len() == j,
                forall|b: int|
                    0 <= b < j ==> (#[trigger] level@[b])@.len() == 8 && fe_vec_wf(level@[b]@),
            decreases 3 - j,
        {
            level.push(random_fe_vec(8));
            j += 1;
        }
        tree.push(level);
        i += 1;
    }
    FsWitness { sk0, pk_x, r_x, main_tree: tree }
}

} // verus!
