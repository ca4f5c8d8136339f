use dynamic_range::{DynamicInclusiveRange, ExclusiveRange, InclusiveRange, Producer};

fn collect<P: Producer>(mut p: P) -> Vec<u64> {
    let mut out = Vec::new();
    while let Some(x) = p.next() {
        out.push(x);
    }
    out
}

#[test]
fn one_to_ten_sums_to_fifty_five() {
    assert_eq!(dynamic_range::producer::calc(ExclusiveRange::new(1, 11)), 55);
    assert_eq!(dynamic_range::producer::calc(InclusiveRange::new(1, 10)), 55);
    assert_eq!(dynamic_range::producer::calc(DynamicInclusiveRange::new(1, 10)), 55);
}

#[test]
fn sum_wraps_around() {
    let expected = (u64::MAX - 1).wrapping_add(u64::MAX);
    assert_eq!(expected, u64::MAX - 2);
    assert_eq!(dynamic_range::producer::calc(InclusiveRange::new(u64::MAX - 1, u64::MAX)), expected);
    assert_eq!(dynamic_range::producer::calc(DynamicInclusiveRange::new(u64::MAX - 1, u64::MAX)), expected);
}

#[test]
fn empty_runs_sum_to_zero() {
    assert_eq!(dynamic_range::producer::calc(ExclusiveRange::new(5, 5)), 0);
    assert_eq!(dynamic_range::producer::calc(ExclusiveRange::new(7, 3)), 0);
    assert_eq!(dynamic_range::producer::calc(InclusiveRange::new(5, 4)), 0);
    assert_eq!(dynamic_range::producer::calc(DynamicInclusiveRange::new(5, 4)), 0);
    assert_eq!(dynamic_range::producer::calc(DynamicInclusiveRange::new(u64::MAX, u64::MAX - 1)), 0);
}

#[test]
fn exclusive_matches_inclusive() {
    for &(low, high) in &[(0u64, 0u64), (1, 10), (3, 1000), (u64::MAX - 20, u64::MAX - 1)] {
        assert_eq!(collect(ExclusiveRange::new(low, high + 1)), collect(InclusiveRange::new(low, high)));
        assert_eq!(dynamic_range::producer::calc(ExclusiveRange::new(low, high + 1)), dynamic_range::producer::calc(InclusiveRange::new(low, high)));
    }
}

#[test]
fn dynamic_reaches_max_without_overflow() {
    let r = DynamicInclusiveRange::new(u64::MAX - 2, u64::MAX);
    assert!(matches!(r, DynamicInclusiveRange::Inclusive(_)));
    assert_eq!(collect(r), vec![u64::MAX - 2, u64::MAX - 1, u64::MAX]);
    let single = DynamicInclusiveRange::new(u64::MAX, u64::MAX);
    assert_eq!(collect(single), vec![u64::MAX]);
}

#[test]
fn dynamic_below_max_is_exclusive() {
    let r = DynamicInclusiveRange::new(1, u64::MAX - 1);
    match r {
        DynamicInclusiveRange::NonInclusive(e) => {
            assert_eq!(e.start, 1);
            assert_eq!(e.end, u64::MAX);
        }
        DynamicInclusiveRange::Inclusive(_) => panic!("expected the exclusive form"),
    }
}

#[test]
fn dynamic_matches_inclusive() {
    for &(low, high) in &[
        (1u64, 100_000u64),
        (u64::MAX - 1000, u64::MAX - 1),
        (u64::MAX - 1000, u64::MAX),
        (9, 9),
    ] {
        assert_eq!(collect(DynamicInclusiveRange::new(low, high)), collect(InclusiveRange::new(low, high)));
        assert_eq!(dynamic_range::producer::calc(DynamicInclusiveRange::new(low, high)), dynamic_range::producer::calc(InclusiveRange::new(low, high)));
    }
    assert_eq!(dynamic_range::producer::calc(DynamicInclusiveRange::new(1, 100_000)), 5_000_050_000);
}

#[test]
fn inclusive_stays_ended() {
    let mut r = InclusiveRange::new(u64::MAX, u64::MAX);
    assert_eq!(r.next(), Some(u64::MAX));
    assert_eq!(r.next(), None);
    assert_eq!(r.next(), None);
    assert!(r.exhausted);
}

#[test]
fn near_max_sum_is_exact_modulo() {
    let n: u128 = 1001;
    let lo = (u64::MAX - 1000) as u128;
    let exact = (lo + u64::MAX as u128) * n / 2;
    let expected = (exact % (1u128 << 64)) as u64;
    assert_eq!(dynamic_range::producer::calc(DynamicInclusiveRange::new(u64::MAX - 1000, u64::MAX)), expected);
}
