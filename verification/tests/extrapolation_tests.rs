use quadrature::extrapolation::{ERROR_FLOOR, TABLE_CAPACITY};
use quadrature::fixedpoint::ONE;
use quadrature::{Accelerator, ExtrapolationTable};

#[test]
fn fewer_than_three_values_are_returned_unmodified() {
    let mut t = ExtrapolationTable::new();
    assert_eq!(t.len(), 0);
    assert_eq!(t.append(17), (17, u64::MAX));
    assert_eq!(t.append(-4), (-4, u64::MAX));
    assert_eq!(t.len(), 2);
}

#[test]
fn a_geometric_sequence_is_taken_to_its_limit() {
    let mut t = ExtrapolationTable::new();
    assert_eq!(t.append(0), (0, u64::MAX));
    assert_eq!(t.append(ONE / 2), (ONE / 2, u64::MAX));
    assert_eq!(t.append(3 * ONE / 4), (ONE, u64::MAX));
    assert_eq!(t.append(7 * ONE / 8), (ONE, u64::MAX));
    assert_eq!(t.append(15 * ONE / 16), (ONE, u64::MAX));
    assert_eq!(t.append(31 * ONE / 32), (ONE, ERROR_FLOOR));
    assert_eq!(t.append(63 * ONE / 64), (ONE, ERROR_FLOOR));
    assert_eq!(t.len(), 7);
}

#[test]
fn the_error_is_the_distance_from_the_last_three_estimates() {
    let mut t = ExtrapolationTable::new();
    t.append(0);
    t.append(ONE / 2);
    t.append(3 * ONE / 4);
    t.append(7 * ONE / 8);
    t.append(15 * ONE / 16);
    let (estimate, error) = t.append(15 * ONE / 16 + ONE / 32 + 1000);
    assert!(estimate != ONE);
    assert_eq!(error, 3 * (estimate - ONE).unsigned_abs());
}

#[test]
fn a_constant_sequence_falls_back_to_the_raw_value() {
    let mut t = ExtrapolationTable::new();
    t.append(7);
    t.append(7);
    assert_eq!(t.append(7), (7, u64::MAX));
    assert_eq!(t.append(7), (7, u64::MAX));
    assert_eq!(t.append(7), (7, u64::MAX));
    assert_eq!(t.append(7), (7, ERROR_FLOOR));
    assert_eq!(t.append(9), (9, 6));
}

#[test]
fn differences_beyond_the_guard_are_not_extrapolated() {
    let mut t = ExtrapolationTable::new();
    t.append(i64::MIN);
    t.append(0);
    assert_eq!(t.append(i64::MAX), (i64::MAX, u64::MAX));
    assert_eq!(t.append(i64::MIN), (i64::MIN, u64::MAX));
    assert_eq!(t.append(i64::MAX), (i64::MAX, u64::MAX));
    assert_eq!(t.append(i64::MIN), (i64::MIN, u64::MAX));
}

#[test]
fn an_alternating_sequence_is_taken_to_its_mean() {
    let mut t = ExtrapolationTable::new();
    t.append(ONE + 1024);
    t.append(ONE - 512);
    assert_eq!(t.append(ONE + 256).0, ONE);
    assert_eq!(t.append(ONE - 128).0, ONE);
}

#[test]
fn the_table_keeps_no_more_than_its_capacity() {
    let mut t = ExtrapolationTable::new();
    let mut value = 0i64;
    let mut step = ONE;
    for k in 0..200 {
        value += step;
        step = step * 9 / 10;
        t.append(value);
        assert!(t.len() <= TABLE_CAPACITY);
        assert_eq!(t.len(), (k + 1).min(TABLE_CAPACITY));
    }
    assert_eq!(TABLE_CAPACITY, 52);
}

#[test]
fn a_slowly_converging_series_is_accelerated() {
    // Partial sums of the alternating harmonic series, which tend to ln 2.
    let mut t = ExtrapolationTable::new();
    let mut sum = 0.0f64;
    let mut last = (0i64, u64::MAX);
    for k in 1..=12 {
        let term = 1.0 / k as f64;
        sum += if k % 2 == 1 { term } else { -term };
        last = t.append((sum * ONE as f64).round() as i64);
    }
    let raw_error = (sum - 2f64.ln()).abs();
    let accelerated_error = (last.0 as f64 / ONE as f64 - 2f64.ln()).abs();
    assert!(raw_error > 0.03);
    assert!(accelerated_error < 1e-7);
    assert!((last.1 as f64 / ONE as f64) < 1e-5);
}

#[test]
fn an_accelerator_keeps_the_estimate_with_the_least_error() {
    let mut a = Accelerator::new();
    assert_eq!(a.best(), (0, u64::MAX));
    for v in [0, ONE / 2, 3 * ONE / 4, 7 * ONE / 8, 15 * ONE / 16] {
        a.observe(v);
        assert_eq!(a.best(), (0, u64::MAX));
    }
    a.observe(31 * ONE / 32);
    assert_eq!(a.best(), (ONE, ERROR_FLOOR));
    a.observe(0);
    assert_eq!(a.best(), (ONE, ERROR_FLOOR));
}
