use anonstake::bits::u64_to_bits_le;
use anonstake::compare::{assignment_not_leq_fixed, assignment_not_leq_not_fixed, bits_gt,
    leq_fixed, leq_not_fixed};
use anonstake::config::RunConfig;
use anonstake::constants::{PoseidonConstants, TauValue};
use anonstake::field::Fe;
use anonstake::fssig::SumCompositionEight;
use anonstake::hashes::{poseidon, poseidon_hash};
use anonstake::prf::{mimc_prf, mimc_round};
use anonstake::SynthesisError;

fn bits_of(v: u64, n: usize) -> Vec<bool> {
    let mut bits = u64_to_bits_le(v);
    while bits.len() < n {
        bits.push(false);
    }
    bits.truncate(n);
    bits
}

/// A small mixing permutation: two full rounds, an all-ones mixing matrix,
/// zero round constants.
fn small_poseidon() -> PoseidonConstants {
    let mut mds = Vec::new();
    for _ in 0..9 {
        let mut row = Vec::new();
        for _ in 0..9 {
            row.push(Fe::from_u64(1));
        }
        mds.push(row);
    }
    let mut rounds = Vec::new();
    for _ in 0..2 {
        let mut row = Vec::new();
        for _ in 0..9 {
            row.push(Fe::from_u64(0));
        }
        rounds.push(row);
    }
    PoseidonConstants { r_f: 2, r_p: 0, mds, rounds }
}

#[test]
fn compare_not_leq_fixed_exact() {
    // 6 > 2 and 6 > 4 but not 6 > 8; a zero bound is unconditionally true
    let six = bits_of(6, 80);
    assert!(assignment_not_leq_fixed(&six, 2, 80));
    assert!(assignment_not_leq_fixed(&six, 4, 80));
    assert!(!assignment_not_leq_fixed(&six, 8, 80));
    assert!(!assignment_not_leq_fixed(&six, 6, 80));
    assert!(assignment_not_leq_fixed(&six, 0, 80));
    let zero = bits_of(0, 80);
    assert!(assignment_not_leq_fixed(&zero, 0, 80));
    assert!(!assignment_not_leq_fixed(&zero, 1, 80));
}

#[test]
fn compare_not_leq_not_fixed_exact() {
    let a = bits_of(0x1234, 80);
    let b = bits_of(0x1233, 80);
    assert!(assignment_not_leq_not_fixed(&a, &b));
    assert!(!assignment_not_leq_not_fixed(&b, &a));
    assert!(!assignment_not_leq_not_fixed(&a, &a));
    assert!(bits_gt(&a, &b));
}

#[test]
fn compare_leq_not_fixed_enforces_order() {
    let small = bits_of(41, 64);
    let big = bits_of(42, 64);
    assert!(leq_not_fixed(&small, &big).is_ok());
    assert!(leq_not_fixed(&big, &big).is_ok());
    assert_eq!(leq_not_fixed(&big, &small), Err(SynthesisError::Unsatisfiable));
}

#[test]
fn compare_leq_fixed_degenerate_bound_fails() {
    let bits = bits_of(0, 80);
    assert_eq!(
        leq_fixed(&bits, 0, 80).unwrap_err(),
        SynthesisError::Unsatisfiable
    );
}

#[test]
fn compare_leq_fixed_window() {
    let bits = bits_of(5, 80);
    // 5 <= 7: the low three bits come back
    let res = leq_fixed(&bits, 7, 80).unwrap();
    assert_eq!(res.len(), 3);
    assert_eq!(res, vec![true, false, true]);
    // 5 > 4 fails
    assert!(leq_fixed(&bits, 4, 80).is_err());
}

#[test]
fn prf_round_exact_value() {
    // with exponent 1 a round returns its input sum: t^(2^1) / t = t
    let sk = Fe::from_u64(3);
    let input = Fe::from_u64(4);
    let rc = Fe::from_u64(0);
    let out = mimc_round(&sk, &input, &rc, 1).unwrap();
    assert!(out.equals(&Fe::from_u64(7)));
}

#[test]
fn prf_zero_round_sum_is_division_by_zero() {
    let sk = Fe::from_u64(0);
    let input = Fe::from_u64(0);
    let rc = Fe::from_u64(0);
    assert_eq!(
        mimc_round(&sk, &input, &rc, 1).unwrap_err(),
        SynthesisError::DivisionByZero
    );
}

fn small_mimc_table() -> anonstake::constants::MimcConstants {
    let table = || vec![Fe::from_u64(0)];
    let mut prf_sel = Vec::new();
    for _ in 0..20 {
        prf_sel.push(table());
    }
    anonstake::constants::MimcConstants {
        num_rounds: 1,
        exponent: 1,
        prf_addr: table(),
        prf_sn: table(),
        prf_tsn: table(),
        prf_pk: table(),
        prf_priority: table(),
        prf_seed: table(),
        prf_sel,
    }
}

#[test]
fn prf_exact_value() {
    // one round, exponent one: the output is (sk + input) + sk
    let mc = small_mimc_table();
    let sk = Fe::from_u64(3);
    let input = Fe::from_u64(4);
    let out = mimc_prf(&mc, &mc.prf_addr, &sk, &input).unwrap();
    assert!(out.equals(&Fe::from_u64(10)));
}

#[test]
fn prf_deterministic_round_trip() {
    let mc = small_mimc_table();
    let sk = Fe::from_u64(123456789);
    let input = Fe::from_u64(987654321);
    let a = mimc_prf(&mc, &mc.prf_sn, &sk, &input).unwrap();
    let b = mimc_prf(&mc, &mc.prf_sn, &sk, &input).unwrap();
    assert!(a.equals(&b));
}

#[test]
fn prf_distinct_keys_do_not_collide() {
    let mc = small_mimc_table();
    let input = Fe::from_u64(5);
    for trial in 0..1000u64 {
        let k1 = Fe::from_u64(2 * trial + 1);
        let k2 = Fe::from_u64(2 * trial + 2);
        let o1 = mimc_prf(&mc, &mc.prf_tsn, &k1, &input).unwrap();
        let o2 = mimc_prf(&mc, &mc.prf_tsn, &k2, &input).unwrap();
        assert!(!o1.equals(&o2));
    }
}

#[test]
fn poseidon_exact_value() {
    // two full rounds over an all-ones matrix: the digest of [1, 0, ..] is 9
    let c = small_poseidon();
    let mut input = Vec::new();
    input.push(Fe::from_u64(1));
    for _ in 0..7 {
        input.push(Fe::from_u64(0));
    }
    let digest = poseidon(&c, &input);
    assert!(digest.equals(&Fe::from_u64(9)));
    // the standalone variant has no round constants to add here, so it
    // agrees with zero constant rows
    let digest2 = poseidon_hash(&c, &input);
    assert!(digest2.equals(&Fe::from_u64(9)));
}

#[test]
fn poseidon_differs_on_inputs() {
    let c = small_poseidon();
    let mut a = Vec::new();
    let mut b = Vec::new();
    for i in 0..8u64 {
        a.push(Fe::from_u64(i));
        b.push(Fe::from_u64(i + 1));
    }
    assert!(!poseidon(&c, &a).equals(&poseidon(&c, &b)));
}

#[test]
fn sum_composition_hash_and_clone() {
    let c = small_poseidon();
    let mut pks = Vec::new();
    pks.push(Fe::from_u64(1));
    for _ in 0..7 {
        pks.push(Fe::from_u64(0));
    }
    let copied = SumCompositionEight::clone_public_keys(&pks);
    for i in 0..8 {
        assert!(copied[i].equals(&pks[i]));
    }
    let digest = SumCompositionEight::hash_public_keys(&c, &pks);
    assert!(digest.equals(&Fe::from_u64(9)));
}

#[test]
fn benchmark_selection_table() {
    let (tau, is_bp, up) = RunConfig::benchmark_selection(0);
    assert_eq!(tau, TauValue::Tau20);
    assert!(is_bp);
    assert!(up);
    let (tau, is_bp, up) = RunConfig::benchmark_selection(3);
    assert_eq!(tau, TauValue::Tau1500);
    assert!(!is_bp);
    assert!(!up);
    let (tau, is_bp, up) = RunConfig::benchmark_selection(15);
    assert_eq!(tau, TauValue::Tau5000);
    assert!(!is_bp);
    assert!(!up);
    assert_eq!(RunConfig::merkle_height_for(true), 10);
    assert_eq!(RunConfig::merkle_height_for(false), 29);
}
