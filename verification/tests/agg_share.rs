use daphne::vdaf::{
    VdafAggregateShare, FIELD128_MODULUS, FIELD64_MODULUS, FIELD_PRIO2_MODULUS,
};
use daphne::{DapAggregateShare, DapError, DapOutputShare};

fn zero() -> DapAggregateShare {
    DapAggregateShare::default()
}

fn checksum(seed: u8) -> [u8; 32] {
    let mut out = [0u8; 32];
    for (i, b) in out.iter_mut().enumerate() {
        *b = seed.wrapping_mul(31).wrapping_add(i as u8);
    }
    out
}

fn share64(report_count: u64, seed: u8, data: Vec<u64>) -> DapAggregateShare {
    DapAggregateShare {
        report_count,
        checksum: checksum(seed),
        data: Some(VdafAggregateShare::Field64(data)),
    }
}

fn merged(mut left: DapAggregateShare, right: DapAggregateShare) -> DapAggregateShare {
    left.merge(right).unwrap();
    left
}

fn fatal_message(e: DapError) -> String {
    match e {
        DapError::Fatal(m) => m,
        other => panic!("expected a fatal error, got {:?}", other),
    }
}

#[test]
fn default_is_the_zero_aggregate_share() {
    let z = zero();
    assert_eq!(z.report_count, 0);
    assert_eq!(z.checksum, [0u8; 32]);
    assert_eq!(z.data, None);
    assert!(z.empty());
}

#[test]
fn merge_with_zero_on_the_right_changes_nothing() {
    let a = share64(3, 1, vec![5, 6, 7]);
    assert_eq!(merged(a.clone(), zero()), a);
}

#[test]
fn merge_into_zero_gives_the_other() {
    let a = share64(3, 1, vec![5, 6, 7]);
    assert_eq!(merged(zero(), a.clone()), a);
}

#[test]
fn merge_of_zero_with_zero_is_zero() {
    assert_eq!(merged(zero(), zero()), zero());
}

#[test]
fn merge_adds_counts_xors_checksums_and_adds_data() {
    let a = share64(2, 1, vec![1, 2, 3]);
    let b = share64(5, 2, vec![10, 20, 30]);
    let m = merged(a.clone(), b.clone());
    assert_eq!(m.report_count, 7);
    let mut want = [0u8; 32];
    for i in 0..32 {
        want[i] = a.checksum[i] ^ b.checksum[i];
    }
    assert_eq!(m.checksum, want);
    assert_eq!(m.data, Some(VdafAggregateShare::Field64(vec![11, 22, 33])));
}

#[test]
fn merge_is_commutative() {
    let a = share64(2, 1, vec![1, FIELD64_MODULUS - 1]);
    let b = share64(5, 2, vec![FIELD64_MODULUS - 3, 9]);
    assert_eq!(merged(a.clone(), b.clone()), merged(b, a));
}

#[test]
fn merge_is_associative() {
    let a = share64(2, 1, vec![FIELD64_MODULUS - 1, 4]);
    let b = share64(5, 2, vec![FIELD64_MODULUS - 2, 5]);
    let c = share64(1, 3, vec![FIELD64_MODULUS - 3, 6]);
    let left = merged(merged(a.clone(), b.clone()), c.clone());
    let right = merged(a, merged(b, c));
    assert_eq!(left, right);
    assert_eq!(left.report_count, 8);
    assert_eq!(
        left.data,
        Some(VdafAggregateShare::Field64(vec![FIELD64_MODULUS - 6, 15]))
    );
}

#[test]
fn field64_sums_are_reduced() {
    let a = share64(1, 1, vec![FIELD64_MODULUS - 1, 0, 1]);
    let b = share64(1, 2, vec![2, 0, FIELD64_MODULUS - 1]);
    assert_eq!(
        merged(a, b).data,
        Some(VdafAggregateShare::Field64(vec![1, 0, 0]))
    );
}

#[test]
fn field128_sums_are_reduced() {
    let a = DapAggregateShare {
        report_count: 1,
        checksum: checksum(1),
        data: Some(VdafAggregateShare::Field128(vec![FIELD128_MODULUS - 1, 7])),
    };
    let b = DapAggregateShare {
        report_count: 1,
        checksum: checksum(2),
        data: Some(VdafAggregateShare::Field128(vec![5, 8])),
    };
    assert_eq!(
        merged(a, b).data,
        Some(VdafAggregateShare::Field128(vec![4, 15]))
    );
}

#[test]
fn field_prio2_sums_are_reduced() {
    let a = DapAggregateShare {
        report_count: 1,
        checksum: checksum(1),
        data: Some(VdafAggregateShare::FieldPrio2(vec![FIELD_PRIO2_MODULUS - 1, 7])),
    };
    let b = DapAggregateShare {
        report_count: 1,
        checksum: checksum(2),
        data: Some(VdafAggregateShare::FieldPrio2(vec![3, 8])),
    };
    assert_eq!(
        merged(a, b).data,
        Some(VdafAggregateShare::FieldPrio2(vec![2, 15]))
    );
}

#[test]
fn residues_that_are_not_reduced_are_reduced_by_the_sum() {
    let a = share64(1, 1, vec![u64::MAX]);
    let b = share64(1, 2, vec![0]);
    assert_eq!(
        merged(a, b).data,
        Some(VdafAggregateShare::Field64(vec![u64::MAX - FIELD64_MODULUS]))
    );
}

#[test]
fn merge_with_mismatched_vdaf_field_is_fatal_and_changes_nothing() {
    let mut left = DapAggregateShare {
        report_count: 4,
        checksum: checksum(9),
        data: Some(VdafAggregateShare::Field128(vec![1, 2])),
    };
    let before = left.clone();
    let right = share64(2, 3, vec![1, 2]);
    let e = left.merge(right).unwrap_err();
    assert_eq!(fatal_message(e), "invalid aggregate share merge");
    assert_eq!(left, before);
}

#[test]
fn merge_of_every_pair_of_different_fields_is_fatal() {
    let shares = vec![
        VdafAggregateShare::Field64(vec![1]),
        VdafAggregateShare::Field128(vec![1]),
        VdafAggregateShare::FieldPrio2(vec![1]),
    ];
    for (i, l) in shares.iter().enumerate() {
        for (j, r) in shares.iter().enumerate() {
            let mut left = DapAggregateShare {
                report_count: 1,
                checksum: checksum(1),
                data: Some(l.clone()),
            };
            let right = DapAggregateShare {
                report_count: 1,
                checksum: checksum(2),
                data: Some(r.clone()),
            };
            let result = left.merge(right);
            assert_eq!(result.is_ok(), i == j);
        }
    }
}

#[test]
fn merge_of_different_lengths_is_fatal_and_changes_nothing() {
    let mut left = share64(4, 9, vec![1, 2, 3]);
    let before = left.clone();
    let e = left.merge(share64(2, 3, vec![1, 2])).unwrap_err();
    assert!(matches!(e, DapError::Fatal(_)));
    assert_eq!(left, before);
}

#[test]
fn merge_keeps_data_when_the_other_has_none() {
    let a = share64(3, 1, vec![5]);
    let other = DapAggregateShare {
        report_count: 0,
        checksum: checksum(4),
        data: None,
    };
    let m = merged(a.clone(), other.clone());
    assert_eq!(m.data, a.data);
    assert_eq!(m.report_count, 3);
    for i in 0..32 {
        assert_eq!(m.checksum[i], a.checksum[i] ^ other.checksum[i]);
    }
}

#[test]
fn empty_tells_whether_reports_were_counted() {
    assert!(zero().empty());
    assert!(!share64(1, 1, vec![1]).empty());
}

#[test]
fn reset_returns_to_zero() {
    let mut a = share64(3, 1, vec![5, 6, 7]);
    a.reset();
    assert_eq!(a, zero());
    assert!(a.empty());
}

fn out_share(time: u64, seed: u8, data: Vec<u64>) -> DapOutputShare {
    DapOutputShare {
        time,
        checksum: checksum(seed),
        data: VdafAggregateShare::Field64(data),
    }
}

#[test]
fn try_from_out_shares_of_none_is_zero() {
    assert_eq!(
        DapAggregateShare::try_from_out_shares(Vec::new()).unwrap(),
        zero()
    );
}

#[test]
fn try_from_out_shares_merges_in_order() {
    let shares = vec![
        out_share(1, 1, vec![1, 2]),
        out_share(2, 2, vec![10, 20]),
        out_share(3, 3, vec![100, 200]),
    ];
    let agg = DapAggregateShare::try_from_out_shares(shares.clone()).unwrap();
    assert_eq!(agg.report_count, 3);
    assert_eq!(agg.data, Some(VdafAggregateShare::Field64(vec![111, 222])));
    let mut want = [0u8; 32];
    for s in shares.iter() {
        for i in 0..32 {
            want[i] ^= s.checksum[i];
        }
    }
    assert_eq!(agg.checksum, want);
}

#[test]
fn try_from_out_shares_fails_on_a_share_that_does_not_fit() {
    let shares = vec![
        out_share(1, 1, vec![1, 2]),
        DapOutputShare {
            time: 2,
            checksum: checksum(2),
            data: VdafAggregateShare::Field128(vec![1, 2]),
        },
    ];
    let e = DapAggregateShare::try_from_out_shares(shares).unwrap_err();
    assert_eq!(fatal_message(e), "invalid aggregate share merge");
}
