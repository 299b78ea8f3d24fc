//! Immutable configuration data injected at construction time: the round
//! constants of the permutation hash and of the PRF, the per-bit binomial
//! threshold tables, and the statement's size parameters.
use vstd::prelude::*;
use vstd::arithmetic::power2::*;
use crate::field::{Fe, fe_p};

verus! {

/// Every element of a field-element string is canonical.
pub open spec fn fe_vec_wf(v: Seq<Fe>) -> bool {
    forall|i: int| 0 <= i < v.len() ==> (#[trigger] v[i]).wf()
}

/// A well-shaped matrix of canonical field elements.
pub open spec fn fe_mat_wf(m: Seq<Vec<Fe>>, rows: int, cols: int) -> bool {
    m.len() == rows && forall|i: int|
        0 <= i < rows ==> (#[trigger] m[i])@.len() == cols && fe_vec_wf(m[i]@)
}

/// Round constants and shape of the algebraic permutation hash: `r_f` full
/// rounds and `r_p` partial rounds over a nine-element state, with a fixed
/// mixing matrix and one constant row per round.
#[derive(Clone)]
pub struct PoseidonConstants {
    pub r_f: usize,
    pub r_p: usize,
    pub mds: Vec<Vec<Fe>>,
    pub rounds: Vec<Vec<Fe>>,
}

impl PoseidonConstants {
    pub open spec fn wf(&self) -> bool {
        &&& fe_mat_wf(self.mds@, 9, 9)
        &&& fe_mat_wf(self.rounds@, self.r_f + self.r_p, 9)
        &&& self.r_f + self.r_p <= usize::MAX
    }
}

/// Round constants and shape of the algebraic PRF: one constant table per PRF
/// instance, each one constant per round, and the squaring exponent of the
/// round function.
#[derive(Clone)]
pub struct MimcConstants {
    pub num_rounds: usize,
    pub exponent: usize,
    pub prf_addr: Vec<Fe>,
    pub prf_sn: Vec<Fe>,
    pub prf_tsn: Vec<Fe>,
    pub prf_pk: Vec<Fe>,
    pub prf_priority: Vec<Fe>,
    pub prf_seed: Vec<Fe>,
    pub prf_sel: Vec<Vec<Fe>>,
}

impl MimcConstants {
    /// One PRF constant table: one canonical constant per round.
    pub open spec fn table_wf(&self, t: Seq<Fe>) -> bool {
        t.len() == self.num_rounds && fe_vec_wf(t)
    }

    pub open spec fn wf(&self) -> bool {
        &&& self.num_rounds >= 1
        &&& self.exponent >= 1
        &&& self.table_wf(self.prf_addr@)
        &&& self.table_wf(self.prf_sn@)
        &&& self.table_wf(self.prf_tsn@)
        &&& self.table_wf(self.prf_pk@)
        &&& self.table_wf(self.prf_priority@)
        &&& self.table_wf(self.prf_seed@)
        &&& self.prf_sel@.len() == 20
        &&& forall|i: int| 0 <= i < 20 ==> self.table_wf((#[trigger] self.prf_sel@[i])@)
    }
}

/// The per-bit binomial sortition tables: for each of the sixty value-bit
/// positions, a sorted table of strict thresholds scaled to the eighty-bit
/// precision, and a constant base count of tickets granted outright.
#[derive(Clone)]
pub struct BinomialConstants {
    pub thresholds: Vec<Vec<u128>>,
    pub base: Vec<u64>,
}

/// One threshold table: nonzero entries within the precision, sorted in
/// non-decreasing order.
pub open spec fn table_sorted(t: Seq<u128>) -> bool {
    &&& forall|i: int| 0 <= i < t.len() ==> 1 <= #[trigger] t[i] && (t[i] as nat) <= pow2(80)
    &&& forall|i: int, j: int| 0 <= i <= j < t.len() ==> #[trigger] t[i] <= #[trigger] t[j]
}

/// The largest count one value-bit position can contribute.
pub open spec fn table_weight(base: u64, t: Seq<u128>) -> nat {
    if t.len() == 0 {
        0
    } else {
        (base + t.len()) as nat
    }
}

/// The sum of the largest possible contributions of the bit positions up to
/// `n`.
pub open spec fn total_weight(c: &BinomialConstants, n: int) -> nat
    decreases n,
{
    if n <= 0 {
        0
    } else {
        total_weight(c, n - 1) + table_weight(c.base@[n - 1], c.thresholds@[n - 1]@)
    }
}

impl BinomialConstants {
    pub open spec fn wf(&self) -> bool {
        &&& self.thresholds@.len() == 60
        &&& self.base@.len() == 60
        &&& forall|i: int| 0 <= i < 60 ==> table_sorted((#[trigger] self.thresholds@[i])@)
        &&& total_weight(self, 60) < 2048
    }
}

/// The expected stake-weight parameter a table set was generated for, naming
/// one of the precomputed configurations.
#[derive(Clone, Copy, Debug, PartialEq, Eq, Structural)]
pub enum TauValue {
    Tau20,
    Tau2000,
    Tau1500,
    Tau5000,
    Tau2990,
}

/// The full configuration of one statement: PRF and permutation-hash round
/// constants, binomial tables, and the size parameters (sixty value bits,
/// eighty bits of comparison precision).
#[derive(Clone)]
pub struct Constants {
    pub mimc: MimcConstants,
    pub binomial: BinomialConstants,
    pub poseidon: PoseidonConstants,
    pub max_value: usize,
    pub precision: usize,
}

impl Constants {
    pub open spec fn wf(&self) -> bool {
        &&& self.mimc.wf()
        &&& self.binomial.wf()
        &&& self.poseidon.wf()
        &&& self.max_value == 60
        &&& self.precision == 80
    }

    /// Assembles a configuration from injected tables.
    pub fn get(mimc: MimcConstants, binomial: BinomialConstants, poseidon: PoseidonConstants) -> (r:
        Constants)
        requires
            mimc.wf(),
            binomial.wf(),
            poseidon.wf(),
        ensures
            r.wf(),
            r.mimc == mimc,
            r.binomial == binomial,
            r.poseidon == poseidon,
    {
        Constants { mimc, binomial, poseidon, max_value: 60, precision: 80 }
    }
}

} // verus!
