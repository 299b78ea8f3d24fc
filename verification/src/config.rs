//! Run configuration data and the pure selection rules behind the command
//! line: which parameter set, mode flags and tree height a run uses.
use vstd::prelude::*;
use crate::constants::TauValue;

verus! {

/// The failures of the front end's environment handling.
#[derive(Clone, Copy, Debug, PartialEq, Eq, Structural)]
pub enum CLIError {
    DirectoryCreationFailure,
    CannotAccessCWD,
}

/// What a run does: generate parameters, report the statement's size, sample
/// one proof, or benchmark single or batched proving.
#[derive(Clone)]
pub enum RunMode {
    OnlyGenParams(String),
    OutputCircuitInfo,
    Sample(String),
    Single(String, String, u32),
    Batch(String, String, u32, u32),
}

/// One run's full configuration.
#[derive(Clone)]
pub struct RunConfig {
    pub tau: TauValue,
    pub is_bp: bool,
    pub merkle_height: usize,
    pub test_constraint_system: bool,
    pub check_params: bool,
    pub mode: RunMode,
    pub use_poseidon: bool,
}

impl RunConfig {
    /// The Merkle height a hash mode uses: the eight-ary permutation-hash
    /// tree is shallower than the two-ary curve-hash tree.
    pub fn merkle_height_for(use_poseidon: bool) -> (r: usize)
        ensures
            r == (if use_poseidon {
                10int
            } else {
                29int
            }),
    {
        if use_poseidon {
            10
        } else {
            29
        }
    }

    /// The benchmark selection: which parameter set and mode flags one of
    /// the eight numbered benchmark configurations stands for.
    pub fn benchmark_selection(num: u32) -> (r: (TauValue, bool, bool))
        ensures
            num % 8 == 0 ==> r == (TauValue::Tau20, true, true),
            num % 8 == 1 ==> r == (TauValue::Tau20, true, false),
            num % 8 == 2 ==> r == (TauValue::Tau1500, false, true),
            num % 8 == 3 ==> r == (TauValue::Tau1500, false, false),
            num % 8 == 4 ==> r == (TauValue::Tau2990, false, true),
            num % 8 == 5 ==> r == (TauValue::Tau2990, false, false),
            num % 8 == 6 ==> r == (TauValue::Tau5000, false, true),
            num % 8 == 7 ==> r == (TauValue::Tau5000, false, false),
    {
        let n = num % 8;
        if n == 0 {
            (TauValue::Tau20, true, true)
        } else if n == 1 {
            (TauValue::Tau20, true, false)
        } else if n == 2 {
            (TauValue::Tau1500, false, true)
        } else if n == 3 {
            (TauValue::Tau1500, false, false)
        } else if n == 4 {
            (TauValue::Tau2990, false, true)
        } else if n == 5 {
            (TauValue::Tau2990, false, false)
        } else if n == 6 {
            (TauValue::Tau5000, false, true)
        } else {
            (TauValue::Tau5000, false, false)
        }
    }

    /// The parameter-generation table: the four precomputed configurations,
    /// of which only the first carries the block-proposer tag set.
    pub fn generation_selection(i: usize) -> (r: (TauValue, bool))
        requires
            i < 4,
        ensures
            i == 0 ==> r == (TauValue::Tau20, true),
            i == 1 ==> r == (TauValue::Tau1500, false),
            i == 2 ==> r == (TauValue::Tau2990, false),
            i == 3 ==> r == (TauValue::Tau5000, false),
    {
        if i == 0 {
            (TauValue::Tau20, true)
        } else if i == 1 {
            (TauValue::Tau1500, false)
        } else if i == 2 {
            (TauValue::Tau2990, false)
        } else {
            (TauValue::Tau5000, false)
        }
    }
}

} // verus!
