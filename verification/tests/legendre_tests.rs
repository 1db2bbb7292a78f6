use quadrature::fixedpoint::ONE;
use quadrature::legendre::{bisect, clip, legendre_values, roots, times, weight, UNIT};
use quadrature::{GLFixedTable, Value};

fn as_unit(x: f64) -> i64 {
    (x * UNIT as f64).round() as i64
}

fn as_float(x: i64) -> f64 {
    x as f64 / UNIT as f64
}

/// The `i`-th point of the rule on the range from `a` to `b` and its weight,
/// in quanta, from the table entry.
fn point(t: &GLFixedTable, a: i64, b: i64, i: usize) -> (Value, i64, i64) {
    let (node, weight, below) = match t.entry(i) {
        Some(e) => e,
        None => return (Value::BadArgument, 0, 0),
    };
    let (lo, hi) = if a <= b { (a, b) } else { (b, a) };
    let half = (hi as i128 - lo as i128) / 2;
    let signed = if a <= b { half } else { -half };
    let centre = lo as i128 + half;
    let off = signed * node as i128 / (1i128 << 56);
    let x = if below { centre - off } else { centre + off };
    let w = (signed * weight as i128 / (1i128 << 56)).clamp(i64::MIN as i128, i64::MAX as i128);
    (Value::Success, x as i64, w as i64)
}

/// The integral that the rule gives for `f`, evaluated at the points in
/// quanta.
fn glfixed<F: Fn(i64) -> i64>(t: &GLFixedTable, f: F, a: i64, b: i64) -> i64 {
    let values: Vec<i64> = (0..t.n()).map(|i| f(point(t, a, b, i).1)).collect();
    t.apply(a, b, &values)
}

#[test]
fn clip_narrows_to_the_range_between_minus_one_and_one() {
    assert_eq!(clip(0), 0);
    assert_eq!(clip(UNIT as i128), UNIT);
    assert_eq!(clip(UNIT as i128 + 1), UNIT);
    assert_eq!(clip(-(UNIT as i128) - 1), -UNIT);
    assert_eq!(clip(i128::MAX), UNIT);
    assert_eq!(clip(-12345), -12345);
}

#[test]
fn times_rounds_towards_zero() {
    assert_eq!(times(UNIT, UNIT), UNIT);
    assert_eq!(times(UNIT / 2, UNIT / 2), UNIT / 4);
    assert_eq!(times(-UNIT / 2, UNIT / 2), -UNIT / 4);
    assert_eq!(times(3, UNIT / 2), 1);
    assert_eq!(times(-3, UNIT / 2), -1);
    assert_eq!(times(1, 1), 0);
}

#[test]
fn the_recurrence_gives_the_first_polynomials() {
    assert_eq!(legendre_values(1, UNIT / 2), (UNIT / 2, UNIT));
    assert_eq!(legendre_values(2, UNIT / 2), (-UNIT / 8, UNIT / 2));
    assert_eq!(legendre_values(3, UNIT / 2), (-7 * (UNIT / 16), -UNIT / 8));
    assert_eq!(legendre_values(2, 0), (-UNIT / 2, 0));
    assert_eq!(legendre_values(7, UNIT).0, UNIT);
    assert_eq!(legendre_values(7, -UNIT).0, -UNIT);
    assert_eq!(legendre_values(8, -UNIT).0, UNIT);
}

#[test]
fn the_polynomials_follow_their_closed_forms() {
    for i in -8..=8i64 {
        let x = i * (UNIT / 8);
        let t = as_float(x);
        let fourth = (35.0 * t.powi(4) - 30.0 * t * t + 3.0) / 8.0;
        let fifth = (63.0 * t.powi(5) - 70.0 * t.powi(3) + 15.0 * t) / 8.0;
        let (here, before) = legendre_values(5, x);
        assert!((as_float(here) - fifth).abs() < 1e-15);
        assert!((as_float(before) - fourth).abs() < 1e-15);
    }
}

#[test]
fn bisection_ends_at_a_change_of_sign() {
    let r = bisect(2, 0, UNIT);
    assert!((as_float(r) - 1.0 / 3f64.sqrt()).abs() < 1e-15);
    assert!(legendre_values(2, r - 1).0 < 0);
    assert!(legendre_values(2, r).0 >= 0);
    assert_eq!(bisect(3, 5, 5), 5);
    assert_eq!(bisect(3, 5, 6), 6);
}

#[test]
fn the_roots_are_those_of_the_polynomial() {
    assert_eq!(roots(1), vec![0]);
    let two = roots(2);
    assert_eq!(two.len(), 1);
    assert!((as_float(two[0]) - 1.0 / 3f64.sqrt()).abs() < 1e-15);
    let three = roots(3);
    assert_eq!(three.len(), 2);
    assert_eq!(three[0], 0);
    assert!((as_float(three[1]) - 0.6f64.sqrt()).abs() < 1e-15);
    let five = roots(5);
    assert_eq!(five.len(), 3);
    assert!((as_float(five[1]) - 0.538_469_310_105_683_1).abs() < 1e-15);
    assert!((as_float(five[2]) - 0.906_179_845_938_664).abs() < 1e-15);
}

#[test]
fn the_roots_ascend_and_stay_below_one() {
    for n in 1..=40usize {
        let r = roots(n);
        assert_eq!(r.len(), (n + 1) / 2);
        assert_eq!(r[0] == 0, n % 2 == 1);
        for k in 1..r.len() {
            assert!(r[k - 1] < r[k]);
        }
        assert!(*r.last().unwrap() < UNIT);
    }
}

#[test]
fn the_weights_are_those_of_the_rule() {
    let scale = (1u64 << 56) as f64;
    let two = roots(2);
    assert!((weight(2, two[0]).unwrap() as f64 / scale - 1.0).abs() < 1e-14);
    let three = roots(3);
    assert!((weight(3, three[0]).unwrap() as f64 / scale - 8.0 / 9.0).abs() < 1e-14);
    assert!((weight(3, three[1]).unwrap() as f64 / scale - 5.0 / 9.0).abs() < 1e-14);
    assert_eq!(weight(1, 0), Some(2 << 56));
}

#[test]
fn a_weight_is_refused_where_the_polynomial_before_vanishes() {
    assert_eq!(weight(2, 0), None);
    assert!(weight(3, as_unit(0.6f64.sqrt())).is_some());
    assert_eq!(weight(3, roots(2)[0] - 1), None);
}

#[test]
fn a_computed_rule_agrees_with_the_tabulated_one() {
    for n in 1..=20usize {
        let computed = GLFixedTable::computed(n).unwrap();
        let tabulated = GLFixedTable::new(n).unwrap();
        assert_eq!(computed.n(), n);
        for i in 0..n {
            let (s, x, w) = point(&computed, -ONE, ONE, i);
            let (t, y, v) = point(&tabulated, -ONE, ONE, i);
            assert_eq!(s, Value::Success);
            assert_eq!(t, Value::Success);
            assert!((x - y).abs() <= 1, "n = {} i = {}: {} {}", n, i, x, y);
            assert!((w - v).abs() <= 1, "n = {} i = {}: {} {}", n, i, w, v);
        }
    }
}

#[test]
fn a_rule_above_the_tabulated_ones_is_computed() {
    for n in [21usize, 32, 48, 64] {
        let t = GLFixedTable::new(n).unwrap();
        assert_eq!(t.n(), n);
        assert_eq!(glfixed(&t, |_x: i64| 3 * ONE, ONE, 5 * ONE), 12 * ONE);
        let f = |x: i64| {
            let t = x as f64 / ONE as f64;
            ((t.powi(30) + t.cos()) * ONE as f64).round() as i64
        };
        let r = glfixed(&t, f, 0, ONE) as f64 / ONE as f64;
        assert!((r - (1.0 / 31.0 + 1f64.sin())).abs() < 1e-10, "n = {}: {}", n, r);
    }
}

#[test]
fn a_rule_beyond_the_largest_computed_one_is_refused() {
    assert!(GLFixedTable::new(0).is_none());
    assert!(GLFixedTable::computed(0).is_none());
    assert!(GLFixedTable::new(0x8000_0000).is_none());
    assert!(GLFixedTable::computed(0x8000_0000).is_none());
    assert!(GLFixedTable::new(usize::MAX).is_none());
}

#[test]
fn the_tabulated_rules_are_those_of_new() {
    for n in 1..=20usize {
        let t = GLFixedTable::tabulated(n);
        let u = GLFixedTable::new(n).unwrap();
        for i in 0..n {
            assert_eq!(point(&t, -ONE, ONE, i), point(&u, -ONE, ONE, i));
        }
    }
}

#[test]
fn a_rule_of_many_points_is_computed() {
    let t = GLFixedTable::new(128).unwrap();
    assert_eq!(t.n(), 128);
    let f = |x: i64| {
        let t = x as f64 / ONE as f64;
        (t.powi(100) * ONE as f64).round() as i64
    };
    let r = glfixed(&t, f, 0, ONE) as f64 / ONE as f64;
    assert!((r - 1.0 / 101.0).abs() < 1e-10, "{}", r);
    let mut total = 0i64;
    for i in 0..128 {
        let (s, x, w) = point(&t, -ONE, ONE, i);
        assert_eq!(s, Value::Success);
        assert!(-ONE < x && x < ONE);
        assert!(w > 0);
        total += w;
    }
    assert!((total - 2 * ONE).abs() <= 128);
}
