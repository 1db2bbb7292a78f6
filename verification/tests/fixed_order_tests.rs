use quadrature::fixedpoint::ONE;
use quadrature::legendre_tables::{legendre_node, legendre_weight, rule_offset, LEGENDRE_OFFSETS};
use quadrature::{GLFixedTable, IntegrationFixedType, IntegrationFixedWorkspace, Value};
use std::cell::Cell;

fn to_fixed(x: f64) -> i64 {
    (x * ONE as f64).round() as i64
}

fn to_float(x: i64) -> f64 {
    x as f64 / ONE as f64
}

/// The `i`-th point of the rule on the range from `a` to `b` and its weight,
/// in quanta, from the table entry.
fn point(t: &GLFixedTable, a: i64, b: i64, i: usize) -> (Value, i64, i64) {
    let (node, weight, below) = match t.entry(i) {
        Some(e) => e,
        None => return (Value::BadArgument, 0, 0),
    };
    let (lo, hi) = if a <= b { (a, b) } else { (b, a) };
    let half = (hi as i128 - lo as i128) / 2;
    let signed = if a <= b { half } else { -half };
    let centre = lo as i128 + half;
    let off = signed * node as i128 / (1i128 << 56);
    let x = if below { centre - off } else { centre + off };
    let w = (signed * weight as i128 / (1i128 << 56)).clamp(i64::MIN as i128, i64::MAX as i128);
    (Value::Success, x as i64, w as i64)
}

/// The integral that the rule gives for `f`, evaluated at the points in
/// quanta.
fn glfixed<F: Fn(i64) -> i64>(t: &GLFixedTable, f: F, a: i64, b: i64) -> i64 {
    let values: Vec<i64> = (0..t.n()).map(|i| f(point(t, a, b, i).1)).collect();
    t.apply(a, b, &values)
}

#[test]
fn the_constructors_name_the_nine_families() {
    assert_eq!(IntegrationFixedType::legendre(), IntegrationFixedType::Legendre);
    assert_eq!(IntegrationFixedType::chebyshev(), IntegrationFixedType::Chebyshev);
    assert_eq!(IntegrationFixedType::chebyshev2(), IntegrationFixedType::Chebyshev2);
    assert_eq!(IntegrationFixedType::gegenbauer(), IntegrationFixedType::Gegenbauer);
    assert_eq!(IntegrationFixedType::jacobi(), IntegrationFixedType::Jacobi);
    assert_eq!(IntegrationFixedType::laguerre(), IntegrationFixedType::Laguerre);
    assert_eq!(IntegrationFixedType::hermite(), IntegrationFixedType::Hermite);
    assert_eq!(IntegrationFixedType::exponential(), IntegrationFixedType::Exponential);
    assert_eq!(IntegrationFixedType::rational(), IntegrationFixedType::Rational);
}

#[test]
fn families_on_a_finite_range_need_an_ascending_range() {
    for t in [
        IntegrationFixedType::legendre(),
        IntegrationFixedType::chebyshev(),
        IntegrationFixedType::chebyshev2(),
        IntegrationFixedType::gegenbauer(),
        IntegrationFixedType::jacobi(),
        IntegrationFixedType::exponential(),
    ] {
        assert!(t.check_parameters(3, 0, 1, 0, 0));
        assert!(!t.check_parameters(3, 1, 1, 0, 0));
        assert!(!t.check_parameters(3, 2, 1, 0, 0));
        assert!(!t.check_parameters(0, 0, 1, 0, 0));
    }
}

#[test]
fn families_with_powers_need_powers_above_minus_one() {
    for t in [
        IntegrationFixedType::gegenbauer(),
        IntegrationFixedType::jacobi(),
        IntegrationFixedType::exponential(),
        IntegrationFixedType::laguerre(),
        IntegrationFixedType::hermite(),
    ] {
        assert!(t.check_parameters(3, 0, 1, -ONE + 1, 0));
        assert!(!t.check_parameters(3, 0, 1, -ONE, 0));
    }
    assert!(IntegrationFixedType::legendre().check_parameters(3, 0, 1, -5 * ONE, -5 * ONE));
    assert!(IntegrationFixedType::jacobi().check_parameters(3, 0, 1, 0, -ONE + 1));
    assert!(!IntegrationFixedType::jacobi().check_parameters(3, 0, 1, 0, -ONE));
    assert!(IntegrationFixedType::gegenbauer().check_parameters(3, 0, 1, 0, -ONE));
}

#[test]
fn families_on_an_infinite_range_need_a_positive_scale() {
    for t in [IntegrationFixedType::laguerre(), IntegrationFixedType::hermite()] {
        assert!(t.check_parameters(3, 5, 1, 0, 0));
        assert!(t.check_parameters(3, -5, 1, 0, 0));
        assert!(!t.check_parameters(3, 0, 0, 0, 0));
        assert!(!t.check_parameters(3, 0, -1, 0, 0));
    }
}

#[test]
fn the_rational_family_needs_a_decaying_weight() {
    let t = IntegrationFixedType::rational();
    assert!(t.check_parameters(2, 0, ONE, 0, -5 * ONE));
    assert!(!t.check_parameters(2, 0, ONE, 0, -4 * ONE));
    assert!(!t.check_parameters(2, 0, ONE, ONE, -5 * ONE));
    assert!(t.check_parameters(2, 0, ONE, ONE, -5 * ONE - 1));
    assert!(!t.check_parameters(2, 0, ONE, -ONE, -5 * ONE));
    assert!(!t.check_parameters(2, -ONE, ONE, 0, -5 * ONE));
    assert!(t.check_parameters(2, -ONE, ONE + 1, 0, -5 * ONE));
    assert!(!t.check_parameters(usize::MAX, 0, ONE, 0, i64::MIN));
}

#[test]
fn the_support_of_a_family_is_where_its_weight_lives() {
    let (a, b) = (2, 9);
    assert!(IntegrationFixedType::legendre().is_supported(a, b, 2));
    assert!(IntegrationFixedType::legendre().is_supported(a, b, 9));
    assert!(!IntegrationFixedType::legendre().is_supported(a, b, 1));
    assert!(!IntegrationFixedType::jacobi().is_supported(a, b, 10));
    assert!(IntegrationFixedType::laguerre().is_supported(a, b, 1000));
    assert!(!IntegrationFixedType::laguerre().is_supported(a, b, 1));
    assert!(IntegrationFixedType::rational().is_supported(a, b, 1000));
    assert!(!IntegrationFixedType::rational().is_supported(a, b, 1));
    assert!(IntegrationFixedType::hermite().is_supported(a, b, i64::MIN));
}

#[test]
fn a_fixed_rule_sums_weight_times_value() {
    let w = IntegrationFixedWorkspace::from_table(
        IntegrationFixedType::legendre(),
        3,
        0,
        4 * ONE,
        0,
        0,
        vec![ONE, 2 * ONE, 3 * ONE],
        vec![ONE / 2, 3 * ONE, ONE / 2],
    )
    .unwrap();
    assert_eq!(w.n(), 3);
    assert_eq!(w.nodes(), Some(&[ONE, 2 * ONE, 3 * ONE][..]));
    assert_eq!(w.weights(), Some(&[ONE / 2, 3 * ONE, ONE / 2][..]));
    let calls = Cell::new(0usize);
    let f = |x: i64| {
        calls.set(calls.get() + 1);
        assert!(x == ONE || x == 2 * ONE || x == 3 * ONE);
        10 * x
    };
    assert_eq!(w.fixed(f), (Value::Success, 5 * ONE + 60 * ONE + 15 * ONE));
    assert_eq!(calls.get(), 3);
    assert_eq!(w.apply(&[ONE, -ONE, 7]), ONE / 2 - 3 * ONE + 3);
}

#[test]
fn a_fixed_rule_saturates_at_every_step() {
    let w = IntegrationFixedWorkspace::from_table(
        IntegrationFixedType::hermite(),
        3,
        0,
        1,
        0,
        0,
        vec![-1, 0, 1],
        vec![ONE, ONE, ONE],
    )
    .unwrap();
    assert_eq!(w.apply(&[i64::MAX, i64::MAX, i64::MIN]), -1);
    assert_eq!(w.apply(&[i64::MAX, i64::MIN, i64::MAX]), i64::MAX - 1);
}

#[test]
fn a_fixed_rule_refuses_tables_that_do_not_fit() {
    let t = IntegrationFixedType::legendre();
    assert!(IntegrationFixedWorkspace::from_table(t, 2, 0, 4, 0, 0, vec![1, 2], vec![1, 1]).is_some());
    assert!(IntegrationFixedWorkspace::from_table(t, 2, 0, 4, 0, 0, vec![0, 4], vec![1, 1]).is_some());
    assert!(IntegrationFixedWorkspace::from_table(t, 3, 0, 4, 0, 0, vec![1, 2], vec![1, 1]).is_none());
    assert!(IntegrationFixedWorkspace::from_table(t, 2, 0, 4, 0, 0, vec![1, 2], vec![1]).is_none());
    assert!(IntegrationFixedWorkspace::from_table(t, 2, 0, 4, 0, 0, vec![1, 5], vec![1, 1]).is_none());
    assert!(IntegrationFixedWorkspace::from_table(t, 2, 0, 4, 0, 0, vec![-1, 2], vec![1, 1]).is_none());
    assert!(IntegrationFixedWorkspace::from_table(t, 2, 4, 0, 0, 0, vec![1, 2], vec![1, 1]).is_none());
    assert!(IntegrationFixedWorkspace::from_table(t, 0, 0, 4, 0, 0, vec![], vec![]).is_none());
    let l = IntegrationFixedType::laguerre();
    assert!(IntegrationFixedWorkspace::from_table(l, 2, 0, 4, 0, 0, vec![1, 500], vec![1, 1]).is_some());
    assert!(IntegrationFixedWorkspace::from_table(l, 2, 0, 4, -ONE, 0, vec![1, 500], vec![1, 1]).is_none());
}

#[test]
fn a_gauss_legendre_table_exists_for_every_number_of_points_in_range() {
    assert!(GLFixedTable::new(0).is_none());
    assert!(GLFixedTable::new(0x8000_0000).is_none());
    assert!(GLFixedTable::new(usize::MAX).is_none());
    for n in 1..=24 {
        assert_eq!(GLFixedTable::new(n).unwrap().n(), n);
    }
}

#[test]
fn the_legendre_tables_hold_half_of_each_rule() {
    assert_eq!(rule_offset(1), 0);
    assert_eq!(rule_offset(2), 1);
    assert_eq!(rule_offset(3), 2);
    assert_eq!(rule_offset(4), 4);
    assert_eq!(rule_offset(20), 100);
    for n in 1..=20usize {
        assert_eq!(LEGENDRE_OFFSETS[n], (n / 2) * ((n + 1) / 2));
    }
    assert_eq!(legendre_node(1, 0), 0);
    assert_eq!(legendre_weight(1, 0), 2 << 56);
    assert_eq!(legendre_weight(2, 0), 1 << 56);
    for n in 1..=20usize {
        let m = (n + 1) / 2;
        let mut total: u128 = 0;
        for k in 0..m {
            let w = legendre_weight(n, k) as u128;
            total += if n % 2 == 1 && k == 0 { w } else { 2 * w };
            if k > 0 {
                assert!(legendre_node(n, k - 1) < legendre_node(n, k));
            }
        }
        assert_eq!(total, 2u128 << 56);
    }
}

#[test]
fn point_gives_the_points_by_ascending_abscissa() {
    let t = GLFixedTable::new(3).unwrap();
    let (s0, x0, w0) = point(&t, -ONE, ONE, 0);
    let (s1, x1, w1) = point(&t, -ONE, ONE, 1);
    let (s2, x2, w2) = point(&t, -ONE, ONE, 2);
    assert_eq!((s0, s1, s2), (Value::Success, Value::Success, Value::Success));
    assert!((to_float(x0) + 0.6f64.sqrt()).abs() < 1e-11);
    assert_eq!(x1, 0);
    assert_eq!(x2, -x0);
    assert!((to_float(w0) - 5.0 / 9.0).abs() < 1e-11);
    assert!((to_float(w1) - 8.0 / 9.0).abs() < 1e-11);
    assert_eq!(w2, w0);
    assert_eq!(point(&t, -ONE, ONE, 3), (Value::BadArgument, 0, 0));
    assert_eq!(point(&t, -ONE, ONE, usize::MAX), (Value::BadArgument, 0, 0));
}

#[test]
fn point_maps_the_rule_onto_the_range() {
    let t = GLFixedTable::new(2).unwrap();
    let (_, x0, w0) = point(&t, 2 * ONE, 6 * ONE, 0);
    let (_, x1, w1) = point(&t, 2 * ONE, 6 * ONE, 1);
    let d = 2.0 / 3f64.sqrt();
    assert!((to_float(x0) - (4.0 - d)).abs() < 1e-11);
    assert!((to_float(x1) - (4.0 + d)).abs() < 1e-11);
    assert_eq!((w0, w1), (2 * ONE, 2 * ONE));
    let (_, y0, v0) = point(&t, 6 * ONE, 2 * ONE, 0);
    assert_eq!((y0, v0), (x1, -2 * ONE));
    let one = GLFixedTable::new(1).unwrap();
    assert_eq!(point(&one, 2 * ONE, 6 * ONE, 0), (Value::Success, 4 * ONE, 4 * ONE));
    assert_eq!(point(&one, i64::MIN, i64::MAX, 0), (Value::Success, -1, i64::MAX));
    assert_eq!(point(&one, i64::MAX, i64::MIN, 0), (Value::Success, -1, i64::MIN));
}

#[test]
fn a_rule_of_n_points_integrates_polynomials_of_degree_below_twice_n() {
    for n in 1..=20usize {
        let t = GLFixedTable::new(n).unwrap();
        let degree = (2 * n - 1).min(12) as i32;
        let f = |x: i64| to_fixed(to_float(x).powi(degree) + 1.0);
        let (a, b) = (-ONE / 2, 3 * ONE / 2);
        let exact = (1.5f64.powi(degree + 1) - (-0.5f64).powi(degree + 1)) / (degree + 1) as f64 + 2.0;
        let r = glfixed(&t, f, a, b);
        assert!((to_float(r) - exact).abs() < 1e-9, "n = {}: {} {}", n, to_float(r), exact);
        assert_eq!(glfixed(&t, f, b, a), -r);
    }
}

#[test]
fn a_rule_with_too_few_points_misses_the_integral() {
    let t = GLFixedTable::new(2).unwrap();
    let f = |x: i64| to_fixed(to_float(x).powi(4));
    let r = glfixed(&t, f, -ONE, ONE);
    assert!((to_float(r) - 2.0 / 9.0).abs() < 1e-10);
    assert!((to_float(r) - 0.4).abs() > 0.1);
}

#[test]
fn glfixed_integrates_a_constant_exactly() {
    for n in 1..=20usize {
        let t = GLFixedTable::new(n).unwrap();
        assert_eq!(glfixed(&t, |_x: i64| 3 * ONE, ONE, 5 * ONE), 12 * ONE);
        assert_eq!(glfixed(&t, |_x: i64| -3 * ONE, 5 * ONE, ONE), 12 * ONE);
        assert_eq!(t.apply(0, 2 * ONE, &vec![7; n]), 14);
    }
}

#[test]
fn glfixed_calls_the_integrand_at_its_points_only() {
    let t = GLFixedTable::new(5).unwrap();
    let (a, b) = (3, 1000);
    let seen = Cell::new(0usize);
    let f = |x: i64| {
        assert!(a <= x && x <= b);
        let (_, expected, _) = point(&t, a, b, seen.get());
        assert_eq!(x, expected);
        seen.set(seen.get() + 1);
        x
    };
    glfixed(&t, f, a, b);
    assert_eq!(seen.get(), 5);
}

fn midpoint_table(n: usize) -> (Vec<u64>, Vec<u64>) {
    let half = (n + 1) / 2;
    let one = 1u128 << 56;
    let mut nodes = Vec::new();
    let mut weights = Vec::new();
    for k in 0..half {
        let j = if n % 2 == 1 { 2 * k } else { 2 * k + 1 } as u128;
        nodes.push((j * one / n as u128) as u64);
        weights.push((2 * one / n as u128) as u64);
    }
    let mut total: u128 = weights.iter().map(|w| 2 * *w as u128).sum();
    if n % 2 == 1 {
        total -= weights[0] as u128;
    }
    let missing = (2 * one - total) as u64;
    if n % 2 == 1 {
        weights[0] += missing;
    } else {
        weights[half - 1] += missing / 2;
    }
    (nodes, weights)
}

#[test]
fn a_table_from_outside_is_taken_when_it_is_well_formed() {
    for n in [1usize, 2, 3, 22, 51, 64] {
        let (nodes, weights) = midpoint_table(n);
        let t = GLFixedTable::from_table(n, nodes, weights).unwrap();
        assert_eq!(t.n(), n);
        assert_eq!(glfixed(&t, |_x: i64| 3 * ONE, ONE, 5 * ONE), 12 * ONE);
        assert_eq!(glfixed(&t, |_x: i64| 3 * ONE, 5 * ONE, ONE), -12 * ONE);
        let mut last = i64::MIN;
        for i in 0..n {
            let (status, x, w) = point(&t, -ONE, ONE, i);
            assert_eq!(status, Value::Success);
            assert!(last < x && -ONE <= x && x <= ONE && w > 0);
            last = x;
        }
        assert_eq!(point(&t, -ONE, ONE, n).0, Value::BadArgument);
    }
    let (nodes, weights) = midpoint_table(64);
    let t = GLFixedTable::from_table(64, nodes, weights).unwrap();
    let r = glfixed(&t, |x: i64| to_fixed(to_float(x) * to_float(x)), 0, 3 * ONE);
    assert!((to_float(r) - 9.0).abs() < 1e-2);
}

#[test]
fn a_table_from_outside_is_the_same_as_the_tabulated_one() {
    let tabulated = GLFixedTable::new(5).unwrap();
    let nodes: Vec<u64> = (0..3).map(|k| legendre_node(5, k)).collect();
    let weights: Vec<u64> = (0..3).map(|k| legendre_weight(5, k)).collect();
    let given = GLFixedTable::from_table(5, nodes, weights).unwrap();
    let f = |x: i64| to_fixed(to_float(x).exp());
    assert_eq!(glfixed(&given, f, -ONE, 2 * ONE), glfixed(&tabulated, f, -ONE, 2 * ONE));
    for i in 0..6 {
        assert_eq!(point(&given, 3, 9 * ONE, i), point(&tabulated, 3, 9 * ONE, i));
    }
}

#[test]
fn a_table_that_is_not_well_formed_is_refused() {
    let one = 1u64 << 56;
    assert!(GLFixedTable::from_table(2, vec![one / 2], vec![one]).is_some());
    assert!(GLFixedTable::from_table(0, vec![], vec![]).is_none());
    assert!(GLFixedTable::from_table(2, vec![one / 2], vec![one + 1]).is_none());
    assert!(GLFixedTable::from_table(2, vec![one / 2], vec![one - 1]).is_none());
    assert!(GLFixedTable::from_table(2, vec![one + 1], vec![one]).is_none());
    assert!(GLFixedTable::from_table(2, vec![one], vec![one]).is_some());
    assert!(GLFixedTable::from_table(2, vec![one / 2, one], vec![one / 2, one / 2]).is_none());
    assert!(GLFixedTable::from_table(2, vec![one / 2], vec![one, 0]).is_none());
    assert!(GLFixedTable::from_table(3, vec![0, one / 2], vec![one, one / 2]).is_some());
    assert!(GLFixedTable::from_table(3, vec![1, one / 2], vec![one, one / 2]).is_none());
    assert!(GLFixedTable::from_table(3, vec![0, one / 2], vec![one / 2, one / 2]).is_none());
    assert!(GLFixedTable::from_table(4, vec![one / 2, one / 2], vec![one / 2, one / 2]).is_none());
    assert!(GLFixedTable::from_table(4, vec![one / 2, one / 4], vec![one / 2, one / 2]).is_none());
    assert!(GLFixedTable::from_table(4, vec![one / 4, one / 2], vec![one / 2, one / 2]).is_some());
    assert!(GLFixedTable::from_table(4, vec![one / 4, one / 2], vec![u64::MAX, u64::MAX]).is_none());
    assert!(GLFixedTable::from_table(1, vec![0], vec![2 * one]).is_some());
    assert!(GLFixedTable::from_table(1, vec![0], vec![one]).is_none());
}

#[test]
fn a_rule_of_another_family_is_made_from_its_table() {
    for t in [
        IntegrationFixedType::gegenbauer(),
        IntegrationFixedType::jacobi(),
        IntegrationFixedType::exponential(),
    ] {
        let w = IntegrationFixedWorkspace::from_table(t, 2, 0, ONE, 0, 0, vec![ONE / 4, 3 * ONE / 4], vec![ONE / 2, ONE / 2]).unwrap();
        assert_eq!(w.n(), 2);
        assert_eq!(w.fixed(|x: i64| x), (Value::Success, ONE / 2));
    }
}

#[test]
fn rounded_weights_are_mended_to_the_sum_of_two() {
    let t = GLFixedTable::new(4).unwrap();
    let whole = 1u64 << 56;
    let rounded = GLFixedTable::from_rounded(
        4,
        vec![(0.3399810435848563 * whole as f64) as u64, (0.8611363115940526 * whole as f64) as u64],
        vec![(0.6521451548625461 * whole as f64) as u64 + 12345, (0.3478548451374538 * whole as f64) as u64],
    )
    .unwrap();
    for i in 0..4 {
        let (_, x, w) = point(&t, -ONE, ONE, i);
        let (_, y, v) = point(&rounded, -ONE, ONE, i);
        assert!((x - y).abs() <= 1 && (w - v).abs() <= 1);
    }
    assert!(GLFixedTable::from_table(2, vec![whole / 2], vec![whole + 5]).is_none());
    assert!(GLFixedTable::from_rounded(2, vec![whole / 2], vec![whole + 5]).is_some());
    assert!(GLFixedTable::from_rounded(3, vec![0, whole / 2], vec![5, whole / 2]).is_some());
    assert!(GLFixedTable::from_rounded(3, vec![0, whole / 2], vec![5, whole + 1]).is_none());
    assert!(GLFixedTable::from_rounded(2, vec![], vec![]).is_none());
    assert!(GLFixedTable::from_rounded(0, vec![0], vec![0]).is_none());
}

#[test]
fn a_rule_integrates_the_identity_exactly() {
    for n in 1..=24usize {
        let t = GLFixedTable::new(n).unwrap();
        assert_eq!(glfixed(&t, |x: i64| x, ONE, 5 * ONE), 12 * ONE);
        assert_eq!(glfixed(&t, |x: i64| x, 5 * ONE, ONE), -12 * ONE);
        assert_eq!(glfixed(&t, |x: i64| 7 * ONE - 2 * x, -ONE, 3 * ONE), 20 * ONE);
    }
}

#[test]
fn the_points_of_a_rule_mirror_each_other() {
    for n in [1usize, 2, 7, 20, 31] {
        let t = GLFixedTable::new(n).unwrap();
        for i in 0..n {
            let (_, x, w) = point(&t, ONE, 4 * ONE, i);
            let (_, y, v) = point(&t, ONE, 4 * ONE, n - 1 - i);
            assert_eq!(x + y, 5 * ONE);
            assert_eq!(w, v);
        }
    }
}

#[test]
fn entry_gives_the_table_entry_of_a_point() {
    let t = GLFixedTable::new(3).unwrap();
    let whole = (1u64 << 56) as f64;
    let (x0, w0, below0) = t.entry(0).unwrap();
    let (x1, w1, below1) = t.entry(1).unwrap();
    let (x2, w2, below2) = t.entry(2).unwrap();
    assert_eq!((below0, below1, below2), (true, false, false));
    assert_eq!((x0, w0), (x2, w2));
    assert_eq!(x1, 0);
    assert!((x0 as f64 / whole - 0.6f64.sqrt()).abs() < 1e-15);
    assert!((w0 as f64 / whole - 5.0 / 9.0).abs() < 1e-15);
    assert!((w1 as f64 / whole - 8.0 / 9.0).abs() < 1e-15);
    assert_eq!(2 * w0 + w1, 2 << 56);
    assert!(t.entry(3).is_none());
    assert!(t.entry(usize::MAX).is_none());
    let two = GLFixedTable::new(2).unwrap();
    assert!((two.entry(0).unwrap().0 as f64 / whole - 1.0 / 3f64.sqrt()).abs() < 1e-15);
}

#[test]
fn apply_sums_the_values_at_the_points() {
    let t = GLFixedTable::new(2).unwrap();
    assert_eq!(t.apply(0, 3 * ONE, &[5 * ONE, 5 * ONE]), 15 * ONE);
    assert_eq!(t.apply(0, 3 * ONE, &[2 * ONE, 4 * ONE]), 9 * ONE);
    assert_eq!(t.apply(3 * ONE, 0, &[2 * ONE, 4 * ONE]), -9 * ONE);
    assert_eq!(t.apply(0, 1, &[4194304 * ONE, 4194304 * ONE]), 4194304);
    assert_eq!(t.apply(7, 7, &[i64::MAX, i64::MAX]), 0);
    assert_eq!(t.apply(i64::MIN, i64::MAX, &[i64::MAX, i64::MAX]), i64::MAX);
}
