use quadrature::analysis_tables::analysis_entry;
use quadrature::cquad::{
    add_wide, add_wide_unsigned, clenshaw_curtis, clenshaw_curtis_samples, coefficient,
    curtis_evaluate, curtis_points, interpolants_apart, raise, CurtisEstimate,
};
use quadrature::curtis_tables::{curtis_node, curtis_weight, degree};
use quadrature::fixedpoint::ONE;
use quadrature::{CquadWorkspace, IntegrationWorkspace, Value};
use std::cell::Cell;

fn to_fixed(x: f64) -> i64 {
    (x * ONE as f64).round() as i64
}

fn to_float(x: i64) -> f64 {
    x as f64 / ONE as f64
}

#[test]
fn a_workspace_needs_three_intervals() {
    assert!(CquadWorkspace::new(0).is_none());
    assert!(CquadWorkspace::new(2).is_none());
    let ws = CquadWorkspace::new(3).unwrap();
    assert_eq!((ws.limit(), ws.size()), (3, 0));
    assert_eq!(ws.estimates(), (0, 0));
}

#[test]
fn the_rules_have_the_degrees_four_to_thirty_two() {
    assert_eq!((degree(0), degree(1), degree(2), degree(3)), (4, 8, 16, 32));
    for d in [2usize, 4, 8, 16, 32] {
        let mut total: u128 = 0;
        for p in 0..=d {
            total += curtis_weight(d, p) as u128;
            assert_eq!(curtis_weight(d, p), curtis_weight(d, d - p));
            assert_eq!(curtis_node(d, p), curtis_node(d, d - p));
        }
        assert_eq!(total, 2u128 << 56);
        assert_eq!(curtis_node(d, 0), 1 << 56);
        assert_eq!(curtis_node(d, d / 2), 0);
    }
    assert_eq!(curtis_node(4, 1), curtis_node(32, 8));
    assert_eq!(curtis_node(8, 3), curtis_node(16, 6));
    assert_eq!(curtis_weight(2, 0), (1 << 56) / 3);
    assert!((curtis_node(4, 1) as f64 / (1u64 << 56) as f64 - 0.5f64.sqrt()).abs() < 1e-15);
}

#[test]
fn the_sample_points_are_nested_and_inside_the_interval() {
    let (a, b) = (-3 * ONE, 5 * ONE);
    let coarse = curtis_points(0, a, b);
    let fine = curtis_points(1, a, b);
    assert_eq!((coarse.len(), fine.len()), (5, 9));
    for p in 0..5 {
        assert_eq!(coarse[p], fine[2 * p]);
    }
    assert_eq!(curtis_points(3, a, b).len(), 33);
    assert_eq!((fine[0], fine[4], fine[8]), (a, ONE, b));
    for p in 1..9 {
        assert!(fine[p - 1] < fine[p]);
    }
}

#[test]
fn the_lowest_rule_is_exact_for_a_constant() {
    let e = curtis_evaluate(0, ONE, 5 * ONE, &[3 * ONE; 5]);
    assert_eq!(e, CurtisEstimate { result: 12 * ONE, abserr: 1 });
    let e = curtis_evaluate(3, ONE, 5 * ONE, &[-3 * ONE; 33]);
    assert_eq!(e, CurtisEstimate { result: -12 * ONE, abserr: 1 });
    let e = curtis_evaluate(0, 0, 5, &[3 * ONE; 5]);
    assert_eq!(e, CurtisEstimate { result: 15, abserr: 0 });
    let e = curtis_evaluate(0, 0, 1, &[4194304 * ONE; 5]);
    assert_eq!(e, CurtisEstimate { result: 4194304, abserr: 0 });
    let e = curtis_evaluate(2, 9, 9, &[i64::MAX; 17]);
    assert_eq!(e, CurtisEstimate { result: 0, abserr: 0 });
}

#[test]
fn the_error_is_the_norm_between_the_interpolating_polynomials() {
    // The polynomial of degree 4 through x^4 is x^4, that of degree 2 is x^2,
    // and the norm of x^4 - x^2 over [-1, 1] is the root of 16/315.
    let f = |x: i64| to_fixed(to_float(x).powi(4));
    let e = clenshaw_curtis(&f, -ONE, ONE, 0);
    assert!((to_float(e.result) - (2.0 / 5.0)).abs() < 1e-10);
    assert!((to_float(e.abserr as i64) - 2.0 * (16.0f64 / 315.0).sqrt()).abs() < 1e-10);
    let e = clenshaw_curtis(&f, -ONE, ONE, 1);
    assert!((to_float(e.result) - 0.4).abs() < 1e-10);
    assert!(e.abserr <= 3);
}

#[test]
fn the_error_grows_with_the_width_of_the_interval() {
    let v = [ONE, 0, 0, 0, ONE];
    let narrow = curtis_evaluate(0, -ONE, ONE, &v);
    let wide = curtis_evaluate(0, -2 * ONE, 2 * ONE, &v);
    assert_eq!(interpolants_apart(4, &v), narrow.abserr / 2);
    assert!((wide.abserr as i64 - 2 * narrow.abserr as i64).abs() <= 2);
}

#[test]
fn a_constant_has_but_its_first_coefficient() {
    let root_two = 2f64.sqrt();
    for (d, stride) in [(2usize, 1usize), (4, 1), (8, 1), (16, 1), (32, 1), (2, 2), (16, 2)] {
        let v = vec![3 * ONE; d * stride + 1];
        assert!((to_float(coefficient(d, stride, &v, 0) as i64) - 3.0 * root_two).abs() < 1e-11);
        for k in 1..=d {
            assert_eq!(coefficient(d, stride, &v, k), 0);
        }
        assert_eq!(coefficient(d, stride, &v, d + 1), 0);
    }
}

#[test]
fn the_coefficients_are_those_of_the_scaled_legendre_polynomials() {
    for level in 0..=3usize {
        let d = degree(level);
        let xs = curtis_points(level, -ONE, ONE);
        let line: Vec<i64> = xs.clone();
        assert!((to_float(coefficient(d, 1, &line, 1) as i64) - (2.0f64 / 3.0).sqrt()).abs() < 1e-10);
        assert!(to_float(coefficient(d, 1, &line, 0) as i64).abs() < 1e-10);
        assert!(to_float(coefficient(d, 1, &line, 2) as i64).abs() < 1e-10);
        let square: Vec<i64> = xs.iter().map(|x| to_fixed(to_float(*x).powi(2))).collect();
        // x^2 is a third of the Legendre polynomial of degree 0 plus two thirds of
        // that of degree 2, whose norms are the roots of 2 and of 2/5.
        assert!((to_float(coefficient(d, 1, &square, 0) as i64) - 2f64.sqrt() / 3.0).abs() < 1e-10);
        assert!((to_float(coefficient(d, 1, &square, 2) as i64) - (2.0 / 3.0) * (0.4f64).sqrt()).abs() < 1e-10);
        assert!(to_float(coefficient(d, 1, &square, 1) as i64).abs() < 1e-10);
    }
}

#[test]
fn interpolating_polynomials_of_a_low_polynomial_agree() {
    for level in 0..=3usize {
        let d = degree(level);
        let xs = curtis_points(level, -ONE, ONE);
        let v: Vec<i64> = xs.iter().map(|x| to_fixed(1.0 - 2.0 * to_float(*x) + to_float(*x).powi(2))).collect();
        assert!(interpolants_apart(d, &v) <= 4);
    }
}

#[test]
fn the_first_row_of_a_matrix_holds_the_weights_of_the_rule() {
    // The integral of the interpolating polynomial is the root of two times
    // its first coefficient.
    for d in [2usize, 4, 8, 16, 32] {
        for p in 0..=d {
            let entry = analysis_entry(d, 0, p) as f64 / (1u64 << 48) as f64;
            let weight = curtis_weight(d, p) as f64 / (1u64 << 56) as f64;
            assert!((entry * 2f64.sqrt() - weight).abs() < 1e-13);
        }
    }
}

#[test]
fn wide_sums_saturate() {
    assert_eq!(add_wide(3, -5), -2);
    assert_eq!(add_wide(i128::MAX, 1), i128::MAX);
    assert_eq!(add_wide(i128::MIN, -1), i128::MIN);
    assert_eq!(add_wide(i128::MIN, i128::MAX), -1);
    assert_eq!(add_wide_unsigned(3, 5), 8);
    assert_eq!(add_wide_unsigned(u128::MAX, 1), u128::MAX);
}

#[test]
fn cquad_integrates_a_constant_with_five_evaluations() {
    let mut ws = CquadWorkspace::new(10).unwrap();
    let calls = Cell::new(0usize);
    let f = |_x: i64| {
        calls.set(calls.get() + 1);
        3 * ONE
    };
    for (epsabs, epsrel) in [(0, 50), (0, 1), (1, 0), (1, -3)] {
        calls.set(0);
        let r = ws.cquad(&f, ONE, 5 * ONE, epsabs, epsrel);
        assert_eq!(r, (Value::Success, 12 * ONE, 1, 5));
        assert_eq!(calls.get(), 5);
        assert_eq!(ws.size(), 1);
    }
}

#[test]
fn cquad_promotes_before_it_bisects() {
    let mut ws = CquadWorkspace::new(10).unwrap();
    let calls = Cell::new(0usize);
    let f = |x: i64| {
        calls.set(calls.get() + 1);
        to_fixed(to_float(x).exp())
    };
    let (status, result, abserr, nevals) = ws.cquad(f, 0, ONE, 0, to_fixed(1e-9));
    assert_eq!(status, Value::Success);
    assert!((to_float(result) - (1f64.exp() - 1.0)).abs() < 1e-10);
    assert!(abserr as f64 <= 1e-9 * result as f64);
    assert_eq!(ws.size(), 1);
    assert_eq!(nevals, 5 + 4 + 8);
    assert_eq!(calls.get(), nevals);
    assert_eq!(ws.estimates(), (result, abserr));
}

#[test]
fn cquad_bisects_an_interval_of_the_highest_level() {
    let mut ws = CquadWorkspace::new(100).unwrap();
    let f = |x: i64| to_fixed((40.0 * to_float(x)).sin().abs());
    let (a, b) = (0, 2 * ONE);
    let g = |x: i64| {
        assert!(a <= x && x <= b);
        f(x)
    };
    let (status, result, abserr, nevals) = ws.cquad(g, a, b, 0, to_fixed(1e-4));
    assert_eq!(status, Value::Success);
    assert!(ws.size() > 1 && ws.size() <= 100);
    assert!(nevals > 5 + 4 + 8 + 16);
    assert!(abserr as f64 <= 1e-4 * result as f64);
    let exact = (50.0 + 1.0 - (80.0f64 - 25.0 * std::f64::consts::PI).cos()) / 40.0;
    assert!((to_float(result) - exact).abs() < 1e-3);
    let backward = ws.cquad(g, b, a, 0, to_fixed(1e-4));
    assert_eq!(backward, (status, -result, abserr, nevals));
}

#[test]
fn cquad_refuses_tolerances_below_the_floor_before_any_evaluation() {
    let mut ws = CquadWorkspace::new(10).unwrap();
    let calls = Cell::new(0usize);
    let f = |x: i64| {
        calls.set(calls.get() + 1);
        x
    };
    assert_eq!(ws.cquad(&f, 0, ONE, 1, 0).0, Value::Success);
    assert_eq!(ws.size(), 1);
    calls.set(0);
    assert_eq!(ws.cquad(&f, 0, ONE, 0, 0), (Value::BadArgument, 0, 0, 0));
    assert_eq!(ws.cquad(&f, 0, ONE, -3, 0), (Value::BadArgument, 0, 0, 0));
    assert_eq!(ws.cquad(&f, 0, ONE, 0, -1), (Value::BadArgument, 0, 0, 0));
    assert_eq!(calls.get(), 0);
    assert_eq!(ws.size(), 0);
    assert_eq!(ws.retired(), (0, 0));
}

#[test]
fn cquad_of_an_empty_range_takes_the_first_five_evaluations() {
    let mut ws = CquadWorkspace::new(10).unwrap();
    let calls = Cell::new(0usize);
    let f = |x: i64| {
        calls.set(calls.get() + 1);
        x
    };
    assert_eq!(ws.cquad(&f, 7, 7, 1, 0), (Value::Success, 0, 0, 5));
    assert_eq!(calls.get(), 5);
    assert_eq!(ws.size(), 1);
    assert_eq!((ws.interval(0).a, ws.interval(0).b), (7, 7));
}

#[test]
fn a_full_workspace_keeps_the_estimates_of_the_intervals_that_leave() {
    let mut ws = CquadWorkspace::new(3).unwrap();
    let f = |x: i64| to_fixed((50.0 * to_float(x)).sin().abs());
    let (status, result, abserr, _) = ws.cquad(f, 0, ONE, 0, to_fixed(1e-7));
    assert_eq!(status, Value::RoundoffLimited);
    assert!(ws.size() <= 3);
    assert_eq!(ws.estimates(), (result, abserr));
    assert!(abserr as f64 > 1e-7 * result as f64);
    let exact = (30.0 + 1.0 + 50.0f64.cos()) / 50.0;
    assert!((to_float(result) - exact).abs() < to_float(abserr as i64));
    assert!((to_float(result) - exact).abs() < 0.1);
}

#[test]
fn cquad_integrates_a_range_of_one_quantum_at_once() {
    let mut ws = CquadWorkspace::new(3).unwrap();
    let r = ws.cquad(|_x: i64| i64::MAX, 7, 8, 0, 50);
    assert_eq!(r, (Value::Success, 8388607, 0, 5));
    assert_eq!(ws.size(), 1);
    let r = ws.cquad(|_x: i64| 4194304 * ONE, 0, 1, 1, 0);
    assert_eq!(r, (Value::Success, 4194304, 0, 5));
}

#[test]
fn raising_a_level_takes_the_known_values_over() {
    let (a, b) = (-ONE, 3 * ONE);
    let calls = Cell::new(0usize);
    let f = |x: i64| {
        calls.set(calls.get() + 1);
        to_fixed((2.0 * to_float(x)).sin())
    };
    let (low, values) = clenshaw_curtis_samples(&f, a, b, 0);
    assert_eq!((values.len(), calls.get()), (5, 5));
    assert_eq!(low, clenshaw_curtis(&f, a, b, 0));
    calls.set(0);
    let (raised, more) = raise(&f, a, b, 0, &values);
    assert_eq!((more.len(), calls.get()), (9, 4));
    for q in 0..5 {
        assert_eq!(more[2 * q], values[q]);
    }
    assert_eq!(raised, clenshaw_curtis(&f, a, b, 1));
    calls.set(0);
    let (top, most) = raise(&f, a, b, 2, &raise(&f, a, b, 1, &more).1);
    assert_eq!((most.len(), calls.get()), (33, 8 + 16));
    assert_eq!(top, clenshaw_curtis(&f, a, b, 3));
}

#[test]
fn every_interval_holds_the_estimate_of_the_rule_of_its_level() {
    let mut ws = CquadWorkspace::new(20).unwrap();
    let f = |x: i64| to_fixed((9.0 * to_float(x)).cos().abs());
    let (status, result, abserr, _) = ws.cquad(f, 0, 2 * ONE, 0, to_fixed(1e-4));
    assert_eq!(status, Value::Success);
    assert_eq!(ws.estimates(), (result, abserr));
    assert!(ws.size() > 1);
    let (mut total, mut error) = ws.retired();
    for k in 0..ws.size() {
        let x = ws.interval(k);
        let e = clenshaw_curtis(&f, x.a, x.b, x.level);
        assert_eq!((x.result, x.error), (e.result, e.abserr));
        assert!(x.level <= 3 && 0 <= x.a && x.a < x.b && x.b <= 2 * ONE);
        total += x.result as i128;
        error += x.error as u128;
    }
    assert_eq!((total, error), (result as i128, abserr as u128));
}

#[test]
fn the_intervals_that_leave_are_counted_in_the_estimates() {
    let mut ws = CquadWorkspace::new(3).unwrap();
    let f = |x: i64| to_fixed((50.0 * to_float(x)).sin().abs());
    let (_, result, abserr, _) = ws.cquad(f, 0, ONE, 0, to_fixed(1e-7));
    let (mut total, mut error) = ws.retired();
    assert!(error > 0);
    for k in 0..ws.size() {
        total += ws.interval(k).result as i128;
        error += ws.interval(k).error as u128;
    }
    assert_eq!((total, error), (result as i128, abserr as u128));
}

#[test]
fn a_doubly_adaptive_workspace_stands_over_a_working_set_of_three_or_more() {
    for n in [3usize, 4, 100] {
        let w = CquadWorkspace::over(IntegrationWorkspace::new(n).unwrap()).unwrap();
        assert_eq!((w.limit(), w.size()), (n, 0));
        assert_eq!(w.retired(), (0, 0));
    }
    for n in [1usize, 2] {
        assert!(CquadWorkspace::over(IntegrationWorkspace::new(n).unwrap()).is_none());
    }
}

#[test]
fn a_doubly_adaptive_workspace_keeps_the_intervals_of_its_working_set() {
    let mut ws = IntegrationWorkspace::new(4).unwrap();
    ws.reset(0, 8 * ONE);
    let w = CquadWorkspace::over(ws).unwrap();
    assert_eq!((w.limit(), w.size()), (4, 1));
    assert_eq!((w.interval(0).a, w.interval(0).b), (0, 8 * ONE));
}
