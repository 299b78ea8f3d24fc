use anonstake::circuit::AnonStake;
use anonstake::constants::{BinomialConstants, Constants, MimcConstants, PoseidonConstants};
use anonstake::field::Fe;
use anonstake::merkle::{coin_commitment_membership1, coin_commitment_membership2,
    serial_number_gap};
use anonstake::circuit::constrain_coin_commitment;
use anonstake::curve::Js;
use anonstake::SynthesisError;

fn small_poseidon() -> PoseidonConstants {
    let mut mds = Vec::new();
    for _ in 0..9 {
        let mut row = Vec::new();
        for _ in 0..9 {
            row.push(Fe::from_u64(1));
        }
        mds.push(row);
    }
    let mut rounds = Vec::new();
    for _ in 0..2 {
        let mut row = Vec::new();
        for _ in 0..9 {
            row.push(Fe::from_u64(0));
        }
        rounds.push(row);
    }
    PoseidonConstants { r_f: 2, r_p: 0, mds, rounds }
}

fn small_constants() -> Constants {
    let table0 = || vec![Fe::from_u64(0)];
    let mut prf_sel = Vec::new();
    for _ in 0..20 {
        prf_sel.push(table0());
    }
    let mimc = MimcConstants {
        num_rounds: 1,
        exponent: 1,
        prf_addr: table0(),
        prf_sn: table0(),
        prf_tsn: table0(),
        prf_pk: table0(),
        prf_priority: table0(),
        prf_seed: table0(),
        prf_sel,
    };
    let mut thresholds = Vec::new();
    let mut bases = Vec::new();
    for i in 0..60 {
        if i == 10 {
            thresholds.push(vec![1u128]);
            bases.push(2u64);
        } else {
            thresholds.push(Vec::new());
            bases.push(0);
        }
    }
    let binomial = BinomialConstants { thresholds, base: bases };
    Constants::get(mimc, binomial, small_poseidon())
}

#[test]
fn membership_reconstructs_committed_root() {
    // a valid witness reproduces the root; corrupting one sibling changes it
    let leaf = Fe::from_u64(77);
    let path = vec![(Fe::from_u64(5), false), (Fe::from_u64(9), true)];
    let root = coin_commitment_membership1(&leaf, &path);
    let root_again = coin_commitment_membership1(&leaf, &path);
    assert!(root.equals(&root_again));
    let corrupted = vec![(Fe::from_u64(5), false), (Fe::from_u64(8), true)];
    let other = coin_commitment_membership1(&leaf, &corrupted);
    assert!(!root.equals(&other));
}

#[test]
fn membership_eight_ary_reconstructs_root() {
    let c = small_poseidon();
    let leaf = Fe::from_u64(3);
    let mut sibs = [Fe::from_u64(0); 8];
    for (k, s) in sibs.iter_mut().enumerate() {
        *s = Fe::from_u64(100 + k as u64);
    }
    let path = vec![(sibs, 4u8)];
    let root = coin_commitment_membership2(&c, &leaf, &path).unwrap();
    let mut corrupted = sibs;
    corrupted[0] = Fe::from_u64(999);
    let other = coin_commitment_membership2(&c, &leaf, &vec![(corrupted, 4u8)]).unwrap();
    assert!(!root.equals(&other));
}

#[test]
fn membership_empty_path_root_is_leaf() {
    let leaf = Fe::from_u64(123);
    let root = coin_commitment_membership1(&leaf, &Vec::new());
    assert!(root.equals(&leaf));
}

#[test]
fn gap_accepts_strict_interior() {
    // sn_less < sn < sn_plus with nonzero offsets on both sides
    let sn = Fe::from_u64(100);
    let d1 = Fe::from_u64(3);
    let d2 = Fe::from_u64(5);
    let (less, plus) = serial_number_gap(&sn, &d1, &d2).unwrap();
    assert!(less.equals(&Fe::from_u64(97)));
    assert!(plus.equals(&Fe::from_u64(105)));
}

#[test]
fn gap_rejects_boundary() {
    // sn equal to a bound means a zero offset, which the gadget rejects
    let sn = Fe::from_u64(100);
    let zero = Fe::from_u64(0);
    let one = Fe::from_u64(1);
    assert_eq!(
        serial_number_gap(&sn, &zero, &one).unwrap_err(),
        SynthesisError::DivisionByZero
    );
    assert_eq!(
        serial_number_gap(&sn, &one, &zero).unwrap_err(),
        SynthesisError::DivisionByZero
    );
}

fn testing_statement(j_i: u64) -> AnonStake {
    let mut a = AnonStake::init_testing(small_constants(), false, 4, j_i, true);
    // fix the coin's value to 2^10, the position with a nonempty table
    a.aux_input.coin.value = Some(1 << 10);
    a
}

#[test]
fn synthesis_succeeds_and_unlinks_tickets() {
    // an honest witness with value 2^10 wins three tickets; ticket zero and
    // ticket one carry different per-ticket tags
    let a0 = testing_statement(0);
    let mut a1 = a0.clone();
    a1.aux_input.j_i = Some(1);
    let out0 = a0.synthesize().unwrap();
    let out1 = a1.synthesize().unwrap();
    assert!(!out0.tsn.equals(&out1.tsn));
    // everything else on the public vector is unchanged
    assert!(out0.role.equals(&out1.role));
    assert!(out0.seed.equals(&out1.seed));
    assert!(out0.h_sig.equals(&out1.h_sig));
    assert!(out0.h.equals(&out1.h));
    let v = out0.vector();
    assert_eq!(v.len(), 5);
    assert!(v[0].equals(&out0.role));
    assert!(v[2].equals(&out0.tsn));
}

#[test]
fn synthesis_rejects_out_of_range_epoch() {
    // a role thirty-six or more bits past the tree start must fail
    let mut a = testing_statement(0);
    a.pub_input.role = Some(1 << 40);
    a.aux_input.fs_tree_start = Some(0);
    assert_eq!(a.synthesize().unwrap_err(), SynthesisError::Unsatisfiable);
}

#[test]
fn synthesis_rejects_start_after_role() {
    let mut a = testing_statement(0);
    a.pub_input.role = Some(5);
    a.aux_input.fs_tree_start = Some(6);
    assert_eq!(a.synthesize().unwrap_err(), SynthesisError::Unsatisfiable);
}

#[test]
fn synthesis_rejects_ticket_index_at_count() {
    // num_selections is three here, so ticket index three is out of bounds
    let a = testing_statement(3);
    assert_eq!(a.synthesize().unwrap_err(), SynthesisError::Unsatisfiable);
}

#[test]
fn synthesis_missing_witness() {
    let a = AnonStake::init_empty(small_constants(), false, 4, true);
    assert_eq!(a.synthesize().unwrap_err(), SynthesisError::AssignmentMissing);
}

#[test]
fn block_proposer_statement_exposes_extra_outputs() {
    let mut a = AnonStake::init_testing(small_constants(), true, 4, 0, true);
    a.aux_input.coin.value = Some(1 << 10);
    let out = a.synthesize().unwrap();
    let bp = out.bp.as_ref().unwrap();
    let v = out.vector();
    assert_eq!(v.len(), 8);
    assert!(v[5].equals(&bp.priority));
    assert!(v[6].equals(&bp.round));
    assert!(v[7].equals(&bp.seed_comp));
}

#[test]
fn pedersen_mode_statement_synthesizes() {
    let mut a = AnonStake::init_testing(small_constants(), false, 3, 0, false);
    a.aux_input.coin.value = Some(1 << 10);
    let out = a.synthesize().unwrap();
    let again = a.synthesize().unwrap();
    // the curve-hash pipeline is deterministic
    assert!(out.tsn.equals(&again.tsn));
    assert!(out.cm_root.equals(&again.cm_root));
}

#[test]
fn commitment_depends_on_randomness() {
    let full_pk = Fe::from_u64(55);
    let rho = Fe::from_u64(66);
    let (cm1, value_bits) = constrain_coin_commitment(1 << 10, &full_pk, &rho, &Js::from_u64(1));
    let (cm2, _) = constrain_coin_commitment(1 << 10, &full_pk, &rho, &Js::from_u64(2));
    assert!(!cm1.equals(&cm2));
    assert_eq!(value_bits.len(), 64);
    assert!(value_bits[10]);
    assert!(!value_bits[9]);
}

#[test]
fn iterator_advances_ticket_index() {
    let a = testing_statement(0);
    let mut iter = a.into_iter();
    assert!(iter.get_copy().is_some());
    assert_eq!(iter.next(), Some(0));
    assert_eq!(iter.next(), Some(1));
    let cur = iter.get_copy().unwrap();
    assert_eq!(cur.aux_input.j_i, Some(2));
}

#[test]
fn random_builder_shapes() {
    let a = AnonStake::init_pure_random(small_constants(), false, 6, true);
    assert_eq!(a.aux_input.cm_poseidon_path.len(), 6);
    assert!(a.aux_input.a_sk.is_some());
    assert!(a.aux_input.fs_witness.is_some());
}
