use anonstake::bits::u64_to_bits_le;
use anonstake::constants::{BinomialConstants, Constants, MimcConstants, PoseidonConstants};
use anonstake::field::Fe;
use anonstake::sortition::{calc_num_selections, sub_binomial_binary_search, sub_binomial_regular};

fn bits_of(v: u64, n: usize) -> Vec<bool> {
    let mut bits = u64_to_bits_le(v);
    while bits.len() < n {
        bits.push(false);
    }
    bits.truncate(n);
    bits
}

fn binomial_with(idx: usize, base: u64, table: Vec<u128>) -> BinomialConstants {
    let mut thresholds = Vec::new();
    let mut bases = Vec::new();
    for i in 0..60 {
        if i == idx {
            thresholds.push(table.clone());
            bases.push(base);
        } else {
            thresholds.push(Vec::new());
            bases.push(0);
        }
    }
    BinomialConstants { thresholds, base: bases }
}

#[test]
fn regular_exact_count() {
    // rand = 6 clears thresholds 3 and 5 (bounds 2 and 4) but not 9
    let c = binomial_with(0, 7, vec![3, 5, 9]);
    let rand = bits_of(6, 80);
    assert_eq!(sub_binomial_regular(&c, 0, &rand), 7 + 2);
}

#[test]
fn tournament_exact_count() {
    let c = binomial_with(0, 7, vec![3, 5, 9]);
    let rand = bits_of(6, 80);
    assert_eq!(sub_binomial_binary_search(&c, 0, &rand), 7 + 2);
}

#[test]
fn strategies_agree_on_all_small_tables() {
    // every table size from one to the maximum tried here, several streams
    for n in 1..12u128 {
        let mut table = Vec::new();
        for k in 0..n {
            table.push(3 * k + 1);
        }
        let c = binomial_with(2, 1, table);
        for rand in 0..40u64 {
            let bits = bits_of(rand, 80);
            assert_eq!(
                sub_binomial_regular(&c, 2, &bits),
                sub_binomial_binary_search(&c, 2, &bits),
            );
        }
    }
}

#[test]
fn strategies_agree_with_duplicate_thresholds() {
    let c = binomial_with(5, 0, vec![2, 2, 4, 4, 4, 7, 7]);
    for rand in 0..16u64 {
        let bits = bits_of(rand, 80);
        assert_eq!(
            sub_binomial_regular(&c, 5, &bits),
            sub_binomial_binary_search(&c, 5, &bits),
        );
    }
}

fn small_constants(idx: usize, base: u64, table: Vec<u128>) -> Constants {
    let table0 = || vec![Fe::from_u64(0)];
    let mut prf_sel = Vec::new();
    for _ in 0..20 {
        prf_sel.push(table0());
    }
    let mimc = MimcConstants {
        num_rounds: 1,
        exponent: 1,
        prf_addr: table0(),
        prf_sn: table0(),
        prf_tsn: table0(),
        prf_pk: table0(),
        prf_priority: table0(),
        prf_seed: table0(),
        prf_sel,
    };
    let mut mds = Vec::new();
    for _ in 0..9 {
        let mut row = Vec::new();
        for _ in 0..9 {
            row.push(Fe::from_u64(1));
        }
        mds.push(row);
    }
    let mut rounds = Vec::new();
    for _ in 0..2 {
        let mut row = Vec::new();
        for _ in 0..9 {
            row.push(Fe::from_u64(0));
        }
        rounds.push(row);
    }
    let poseidon = PoseidonConstants { r_f: 2, r_p: 0, mds, rounds };
    Constants::get(mimc, binomial_with(idx, base, table), poseidon)
}

#[test]
fn num_selections_monotone_in_value_bits() {
    // with the tables and streams fixed, setting one more value bit can only
    // raise the count
    let c = small_constants(10, 2, vec![1]);
    let hash = Fe::from_u64(11);
    let a_sk = Fe::from_u64(7);
    let none_set = bits_of(0, 64);
    let one_set = bits_of(1 << 10, 64);
    let low = calc_num_selections(&c, &none_set, &hash, &a_sk).unwrap();
    let high = calc_num_selections(&c, &one_set, &hash, &a_sk).unwrap();
    assert!(low <= high);
    assert_eq!(low, 0);
    // a threshold of one has bound zero, which every stream clears
    assert_eq!(high, 3);
}

#[test]
fn num_selections_masks_unset_bits() {
    let c = small_constants(10, 2, vec![1]);
    let hash = Fe::from_u64(11);
    let a_sk = Fe::from_u64(7);
    // the value bit at a different position leaves the table masked
    let other_set = bits_of(1 << 9, 64);
    assert_eq!(calc_num_selections(&c, &other_set, &hash, &a_sk).unwrap(), 0);
}
