use quadrature::driver::is_diverging;
use quadrature::fixedpoint::ONE;
use quadrature::rule::gauss_kronrod;
use quadrature::transform::Mapping;
use quadrature::{GaussKronrodRule, IntegrationWorkspace, Scheme, Subinterval, Value};
use std::cell::Cell;

const RULES: [GaussKronrodRule; 6] = [
    GaussKronrodRule::Gauss15,
    GaussKronrodRule::Gauss21,
    GaussKronrodRule::Gauss31,
    GaussKronrodRule::Gauss41,
    GaussKronrodRule::Gauss51,
    GaussKronrodRule::Gauss61,
];

fn to_fixed(x: f64) -> i64 {
    (x * ONE as f64).round() as i64
}

fn to_float(x: i64) -> f64 {
    x as f64 / ONE as f64
}

fn inverse_square_root(x: i64) -> i64 {
    if x <= 0 {
        0
    } else {
        to_fixed(1.0 / to_float(x).sqrt())
    }
}

fn noise(x: i64) -> i64 {
    let h = (x as u64).wrapping_mul(0x9e3779b97f4a7c15).rotate_left(29).wrapping_mul(0xbf58476d1ce4e5b9);
    ((h >> 20) % (2 * ONE as u64)) as i64 - ONE
}

#[test]
fn qag_integrates_a_constant_on_one_interval() {
    for rule in RULES.iter() {
        let mut ws = IntegrationWorkspace::new(10).unwrap();
        for (epsabs, epsrel) in [(0, 50), (0, 1), (1, 0), (1, -3), (ONE, ONE)] {
            let (status, result, abserr) =
                ws.qag(|_x: i64| 3 * ONE, ONE, 5 * ONE, epsabs, epsrel, 10, *rule);
            assert_eq!(status, Value::Success);
            assert_eq!(result, 12 * ONE);
            assert_eq!(abserr, 1);
            assert_eq!(ws.size(), 1);
            assert_eq!(ws.maximum_level(), 0);
            assert_eq!(
                ws.worst(),
                Subinterval { a: ONE, b: 5 * ONE, result: 12 * ONE, error: 1, level: 0 }
            );
        }
    }
}

#[test]
fn qags_integrates_a_constant_on_one_interval() {
    let mut ws = IntegrationWorkspace::new(10).unwrap();
    let calls = Cell::new(0usize);
    let f = |_x: i64| {
        calls.set(calls.get() + 1);
        -7 * ONE
    };
    let (status, result, abserr) = ws.qags(f, -ONE, ONE, 1, 0, 10);
    assert_eq!((status, result, abserr), (Value::Success, -14 * ONE, 1));
    assert_eq!(ws.size(), 1);
    assert_eq!(calls.get(), 21);
}

#[test]
fn qagp_integrates_a_constant_without_bisection() {
    let mut ws = IntegrationWorkspace::new(10).unwrap();
    let pts = [0, ONE, 4 * ONE];
    let (status, result, abserr) = ws.qagp(|_x: i64| 2 * ONE, &pts, 0, 50, 10);
    assert_eq!((status, result, abserr), (Value::Success, 8 * ONE, 2));
    assert_eq!(ws.size(), 2);
    let (status, result, abserr) = ws.qagp(|_x: i64| 2 * ONE, &[0, 3 * ONE], 0, 1, 10);
    assert_eq!((status, result, abserr), (Value::Success, 6 * ONE, 1));
    assert_eq!(ws.size(), 1);
}

#[test]
fn qag_integrates_a_parabola() {
    let mut ws = IntegrationWorkspace::new(100).unwrap();
    let f = |x: i64| to_fixed(to_float(x) * to_float(x));
    let (status, result, abserr) =
        ws.qag(f, 0, ONE, 0, to_fixed(1e-8), 100, GaussKronrodRule::Gauss21);
    assert_eq!(status, Value::Success);
    assert!((to_float(result) - 1.0 / 3.0).abs() < 1e-10);
    assert!(abserr as f64 <= 1e-8 * result as f64);
    assert_eq!(ws.size(), 1);
}

#[test]
fn qag_handles_an_oscillating_integrand() {
    let mut ws = IntegrationWorkspace::new(1000).unwrap();
    let f = |x: i64| to_fixed((30.0 * to_float(x)).sin());
    let (status, result, abserr) =
        ws.qag(f, 0, 2 * ONE, 0, to_fixed(1e-9), 1000, GaussKronrodRule::Gauss15);
    let exact = (1.0 - (60.0f64).cos()) / 30.0;
    assert_eq!(status, Value::Success);
    assert!((to_float(result) - exact).abs() < 1e-9);
    assert!(ws.size() > 1);
    assert!(ws.size() <= 1000);
    assert_eq!(ws.estimates(), (result, abserr));
}

#[test]
fn qag_turns_the_sign_when_the_bounds_are_turned() {
    let mut ws = IntegrationWorkspace::new(100).unwrap();
    let f = |x: i64| to_fixed(to_float(x).exp());
    let forward = ws.qag(f, 0, ONE, 0, to_fixed(1e-9), 100, GaussKronrodRule::Gauss31);
    let backward = ws.qag(f, ONE, 0, 0, to_fixed(1e-9), 100, GaussKronrodRule::Gauss31);
    assert_eq!(forward.0, Value::Success);
    assert_eq!(backward, (forward.0, -forward.1, forward.2));
    assert!((to_float(forward.1) - (1f64.exp() - 1.0)).abs() < 1e-10);
}

#[test]
fn qag_never_calls_the_integrand_outside_the_range() {
    let mut ws = IntegrationWorkspace::new(50).unwrap();
    let (a, b) = (-2 * ONE, 3 * ONE);
    let f = |x: i64| {
        assert!(a <= x && x <= b);
        to_fixed(to_float(x).abs().sqrt())
    };
    let (status, _, _) = ws.qag(f, a, b, 0, to_fixed(1e-6), 50, GaussKronrodRule::Gauss15);
    assert_eq!(status, Value::Success);
    for k in 0..ws.size() {
        assert!(a <= ws.interval(k).a && ws.interval(k).b <= b);
    }
}

#[test]
fn tolerances_below_the_floor_are_refused_before_any_evaluation() {
    let mut ws = IntegrationWorkspace::new(10).unwrap();
    ws.reset(0, 5);
    let calls = Cell::new(0usize);
    let f = |x: i64| {
        calls.set(calls.get() + 1);
        x
    };
    assert_eq!(ws.qag(&f, 0, ONE, 0, 0, 10, GaussKronrodRule::Gauss15), (Value::BadArgument, 0, 0));
    assert_eq!(ws.size(), 0);
    assert_eq!(ws.qag(&f, 0, ONE, 0, to_fixed(1e-16), 10, GaussKronrodRule::Gauss15).0, Value::BadArgument);
    assert_eq!(ws.qags(&f, 0, ONE, 0, 0, 10), (Value::BadArgument, 0, 0));
    assert_eq!(ws.qags(&f, 0, ONE, -1, -1, 10), (Value::BadArgument, 0, 0));
    assert_eq!(ws.qagp(&f, &[0, ONE], 0, 0, 10), (Value::BadArgument, 0, 0));
    assert_eq!(ws.qagi(&f, 0, 0, 10), (Value::BadArgument, 0, 0));
    assert_eq!(ws.qagiu(&f, 0, 0, 0, 10), (Value::BadArgument, 0, 0));
    assert_eq!(ws.qagil(&f, 0, 0, -5, 10), (Value::BadArgument, 0, 0));
    assert_eq!(ws.qawc(&f, 0, ONE, 5, 0, 0, 10), (Value::BadArgument, 0, 0));
    assert_eq!(calls.get(), 0);
    assert_eq!(ws.size(), 0);
}

#[test]
fn a_refused_call_leaves_the_workspace_without_an_interval() {
    let mut used = IntegrationWorkspace::new(10).unwrap();
    let mut fresh = IntegrationWorkspace::new(10).unwrap();
    let f = |x: i64| if x < ONE / 3 { 0 } else { ONE };
    assert_eq!(used.qag(f, 0, ONE, 0, 1, 10, GaussKronrodRule::Gauss15).0, Value::IntervalLimitReached);
    assert_eq!(used.size(), 10);
    for (epsabs, epsrel, limit) in [(0, 0, 5), (1, 0, 11), (-1, -1, 0)] {
        let a = used.qag(f, 0, ONE, epsabs, epsrel, limit, GaussKronrodRule::Gauss15);
        let b = fresh.qag(f, 0, ONE, epsabs, epsrel, limit, GaussKronrodRule::Gauss15);
        assert_eq!(a, (Value::BadArgument, 0, 0));
        assert_eq!(a, b);
        assert_eq!((used.size(), used.maximum_level()), (0, 0));
        assert_eq!((fresh.size(), fresh.maximum_level()), (0, 0));
        assert_eq!(used.limit(), 10);
    }
}

#[test]
fn a_limit_beyond_the_workspace_is_refused() {
    let mut ws = IntegrationWorkspace::new(10).unwrap();
    let f = |x: i64| x;
    assert_eq!(ws.qag(f, 0, ONE, 1, 0, 11, GaussKronrodRule::Gauss15).0, Value::BadArgument);
    assert_eq!(ws.qags(f, 0, ONE, 1, 0, 11).0, Value::BadArgument);
    assert_eq!(ws.qagi(f, 1, 0, 11).0, Value::BadArgument);
    assert_eq!(ws.qagp(f, &[0, ONE], 1, 0, 11).0, Value::BadArgument);
    assert_eq!(ws.qag(f, 0, ONE, 2, 0, 10, GaussKronrodRule::Gauss15).0, Value::Success);
}

#[test]
fn a_limit_of_zero_stands_for_one() {
    let mut ws = IntegrationWorkspace::new(10).unwrap();
    let f = |x: i64| x;
    let r = ws.qag(f, 0, ONE, 1, 0, 0, GaussKronrodRule::Gauss15);
    assert_eq!(r, (Value::Success, ONE / 2, 0));
    assert_eq!(ws.size(), 1);
    assert_eq!(r, ws.qag(f, 0, ONE, 1, 0, 1, GaussKronrodRule::Gauss15));
    let g = |x: i64| if x < ONE / 3 { 0 } else { ONE };
    let zero = ws.qags(g, 0, ONE, 0, 1, 0);
    assert_eq!(zero.0, Value::IntervalLimitReached);
    assert_eq!(ws.size(), 1);
    assert_eq!(zero, ws.qags(g, 0, ONE, 0, 1, 1));
    assert_eq!(ws.qagi(g, 1, 0, 0).0, ws.qagi(g, 1, 0, 1).0);
}

#[test]
fn the_interval_limit_is_reported_with_the_best_estimate() {
    let mut ws = IntegrationWorkspace::new(10).unwrap();
    let (status, result, abserr) =
        ws.qag(inverse_square_root, 0, ONE, 0, to_fixed(1e-8), 3, GaussKronrodRule::Gauss21);
    assert_eq!(status, Value::IntervalLimitReached);
    assert_eq!(ws.size(), 3);
    assert!((to_float(result) - 2.0).abs() < 0.1);
    assert!(abserr as f64 > 1e-8 * result as f64);
    assert_eq!(ws.estimates(), (result, abserr));
    assert_eq!(ws.maximum_level(), 2);
}

#[test]
fn a_constant_succeeds_under_the_least_tolerances() {
    let mut ws = IntegrationWorkspace::new(100).unwrap();
    let r = ws.qag(|_x: i64| ONE, 0, 4 * ONE, 1, 0, 100, GaussKronrodRule::Gauss15);
    assert_eq!(r, (Value::Success, 4 * ONE, 1));
    assert_eq!(ws.size(), 1);
    let r = ws.qag(|_x: i64| ONE, 0, 4 * ONE, 0, 1, 100, GaussKronrodRule::Gauss15);
    assert_eq!(r, (Value::Success, 4 * ONE, 1));
    let r = ws.qags(|_x: i64| -1000 * ONE, 0, 4 * ONE, -7, 1, 100);
    assert_eq!(r, (Value::Success, -4000 * ONE, 1));
    let r = ws.qag(|_x: i64| 0, 0, 4 * ONE, 0, 1, 1, GaussKronrodRule::Gauss15);
    assert_eq!(r, (Value::Success, 0, 0));
    assert_eq!(ws.size(), 1);
    let r = ws.qag(|_x: i64| 0, 0, 4 * ONE, 0, 1, 2, GaussKronrodRule::Gauss15);
    assert_eq!(r, (Value::Success, 0, 0));
    assert_eq!(ws.size(), 1);
}

#[test]
fn a_range_of_one_quantum_is_integrated_at_once() {
    let mut ws = IntegrationWorkspace::new(100).unwrap();
    let r = ws.qag(|_x: i64| ONE, 7, 8, 0, 50, 100, GaussKronrodRule::Gauss15);
    assert_eq!(r, (Value::Success, 1, 0));
    assert_eq!(ws.size(), 1);
    let r = ws.qags(|_x: i64| 4194304 * ONE, 0, 1, 1, 0, 100);
    assert_eq!(r, (Value::Success, 4194304, 0));
    assert_eq!(ws.size(), 1);
    let r = ws.qag(|_x: i64| 5 * ONE, 0, 3, 1, 0, 100, GaussKronrodRule::Gauss61);
    assert_eq!(r, (Value::Success, 15, 0));
}

#[test]
fn qags_integrates_an_inverse_square_root() {
    let mut ws = IntegrationWorkspace::new(1000).unwrap();
    let (status, result, abserr) = ws.qags(inverse_square_root, 0, ONE, 0, to_fixed(1e-8), 1000);
    assert_eq!(status, Value::Success);
    assert!((to_float(result) - 2.0).abs() < 1e-6);
    assert!(to_float(abserr as i64) < 1e-6);
    assert!(abserr as f64 <= 1e-8 * result as f64);
    assert!(ws.size() < 20);
}

#[test]
fn qags_needs_fewer_intervals_than_qag_at_a_singularity() {
    let mut ws = IntegrationWorkspace::new(1000).unwrap();
    ws.qags(inverse_square_root, 0, ONE, 0, to_fixed(1e-7), 1000);
    let with_extrapolation = ws.size();
    ws.qag(inverse_square_root, 0, ONE, 0, to_fixed(1e-7), 1000, GaussKronrodRule::Gauss21);
    assert!(with_extrapolation < ws.size());
}

#[test]
fn qags_integrates_a_logarithm() {
    let mut ws = IntegrationWorkspace::new(1000).unwrap();
    let f = |x: i64| if x <= 0 { 0 } else { to_fixed(to_float(x).ln()) };
    let (status, result, _) = ws.qags(f, 0, ONE, 0, to_fixed(1e-8), 1000);
    assert_eq!(status, Value::Success);
    assert!((to_float(result) + 1.0).abs() < 1e-8);
    let (status, reversed, _) = ws.qags(f, ONE, 0, 0, to_fixed(1e-8), 1000);
    assert_eq!(status, Value::Success);
    assert_eq!(reversed, -result);
}

#[test]
fn qagp_integrates_across_a_known_singular_point() {
    let mut ws = IntegrationWorkspace::new(1000).unwrap();
    let third = ONE / 3;
    let f = |x: i64| {
        let d = (to_float(x) - to_float(third)).abs();
        if d == 0.0 {
            0
        } else {
            to_fixed(1.0 / d.sqrt())
        }
    };
    let pts = [0, third, ONE];
    let (status, result, _) = ws.qagp(f, &pts, 0, to_fixed(1e-7), 1000);
    let exact = 2.0 * (1.0f64 / 3.0).sqrt() + 2.0 * (2.0f64 / 3.0).sqrt();
    assert_eq!(status, Value::Success);
    assert!((to_float(result) - exact).abs() < 1e-6);
    for k in 0..ws.size() {
        let x = ws.interval(k);
        assert!(x.b <= third || third <= x.a);
    }
}

#[test]
fn qagp_refuses_points_that_do_not_ascend() {
    let mut ws = IntegrationWorkspace::new(10).unwrap();
    let f = |x: i64| x;
    assert_eq!(ws.qagp(f, &[0, 5, 3], 1, 0, 10).0, Value::BadArgument);
    assert_eq!(ws.qagp(f, &[5, 0], 1, 0, 10).0, Value::BadArgument);
    assert_eq!(ws.qagp(f, &[0], 1, 0, 10).0, Value::BadArgument);
    assert_eq!(ws.qagp(f, &[], 1, 0, 10).0, Value::BadArgument);
    assert_eq!(ws.qagp(f, &[0, 1, 2, 3, 4, 5, 6, 7, 8, 9, 10, 11], 3, 0, 2).0, Value::BadArgument);
    assert_eq!(ws.size(), 0);
    assert_eq!(ws.qagp(f, &[0, 1, 2, 3], 3, 0, 3), (Value::Success, 0, 0));
    assert_eq!(ws.qagp(f, &[0, 0, 3, 3], 3, 0, 3).0, Value::Success);
}

#[test]
fn qagp_serves_a_limit_below_the_number_of_parts() {
    let mut ws = IntegrationWorkspace::new(10).unwrap();
    let f = |x: i64| if x < ONE / 3 { 0 } else { ONE };
    let few = ws.qagp(f, &[0, ONE, 2 * ONE, 3 * ONE], 0, 1, 2);
    assert_eq!(few.0, Value::IntervalLimitReached);
    assert_eq!(ws.size(), 3);
    assert_eq!(few, ws.qagp(f, &[0, ONE, 2 * ONE, 3 * ONE], 0, 1, 3));
    assert_eq!(few, ws.qagp(f, &[0, ONE, 2 * ONE, 3 * ONE], 0, 1, 0));
}

#[test]
fn qagi_integrates_a_gaussian_over_the_whole_line() {
    let mut ws = IntegrationWorkspace::new(1000).unwrap();
    let f = |x: i64| to_fixed((-to_float(x) * to_float(x)).exp());
    let (status, result, abserr) = ws.qagi(f, 0, to_fixed(1e-8), 1000);
    assert_eq!(status, Value::Success);
    assert!((to_float(result) - 1.772453851).abs() < 1e-8);
    assert!(to_float(abserr as i64) < 1e-7);
    for k in 0..ws.size() {
        assert!(0 <= ws.interval(k).a && ws.interval(k).b <= ONE);
    }
}

#[test]
fn qagiu_integrates_from_a_bound_to_infinity() {
    let mut ws = IntegrationWorkspace::new(1000).unwrap();
    let a = 2 * ONE;
    let f = |x: i64| {
        assert!(x >= a);
        to_fixed((-(to_float(x) - 2.0)).exp())
    };
    let (status, result, _) = ws.qagiu(f, a, 0, to_fixed(1e-8), 1000);
    assert_eq!(status, Value::Success);
    assert!((to_float(result) - 1.0).abs() < 1e-8);
    let g = |x: i64| to_fixed(1.0 / (1.0 + to_float(x) * to_float(x)));
    let (status, result, _) = ws.qagiu(g, 0, 0, to_fixed(1e-8), 1000);
    assert_eq!(status, Value::Success);
    assert!((to_float(result) - std::f64::consts::FRAC_PI_2).abs() < 1e-8);
}

#[test]
fn qagil_integrates_from_minus_infinity_to_a_bound() {
    let mut ws = IntegrationWorkspace::new(1000).unwrap();
    let b = -ONE;
    let f = |x: i64| {
        assert!(x <= b);
        to_fixed(to_float(x).exp())
    };
    let (status, result, _) = ws.qagil(f, b, 0, to_fixed(1e-8), 1000);
    assert_eq!(status, Value::Success);
    assert!((to_float(result) - (-1f64).exp()).abs() < 1e-8);
}

#[test]
fn sums_that_look_divergent_are_reported_as_divergent() {
    let mut ws = IntegrationWorkspace::new(10).unwrap();
    let (status, result, abserr) = ws.qagi(noise, 0, 50, 4);
    assert_eq!(status, Value::Divergent);
    assert!(abserr > result.unsigned_abs());
    let (status, _, _) = ws.qags(noise, 0, ONE, 0, 50, 4);
    assert_eq!(status, Value::IntervalLimitReached);
}

#[test]
fn is_diverging_compares_the_sums() {
    assert!(is_diverging(100, 101, 100));
    assert!(!is_diverging(100, 100, 100));
    assert!(is_diverging(100, 0, 10001));
    assert!(!is_diverging(100, 0, 10000));
    assert!(is_diverging(1000, 0, 9));
    assert!(!is_diverging(1000, 0, 10));
    assert!(is_diverging(1000, 0, -10));
    assert!(is_diverging(-1000, 0, 10));
    assert!(!is_diverging(-1000, 0, -10));
    assert!(is_diverging(-1000, 0, -9));
    assert!(is_diverging(-100, 0, -10001));
    assert!(!is_diverging(0, 0, 5));
    assert!(is_diverging(0, 1, 0));
    assert!(!is_diverging(i64::MIN, u64::MAX >> 1, i64::MIN));
    assert!(is_diverging(i64::MIN, u64::MAX, i64::MIN));
}

#[test]
fn integrate_parts_follows_its_scheme() {
    let mut ws = IntegrationWorkspace::new(100).unwrap();
    let scheme = Scheme {
        rule: GaussKronrodRule::Gauss15,
        map: Mapping::Identity,
        extrapolate: false,
        watch: false,
        depth: Some(2),
    };
    let (status, result, abserr) =
        ws.integrate_parts(&inverse_square_root, &[0, ONE], 0, to_fixed(1e-8), 100, scheme);
    assert_eq!(status, Value::TableInsufficient);
    assert_eq!(ws.maximum_level(), 2);
    assert_eq!(ws.worst().level, 2);
    assert_eq!(ws.estimates(), (result, abserr));
    let deep = Scheme { depth: None, ..scheme };
    let (status, _, _) = ws.integrate_parts(&inverse_square_root, &[0, ONE], 0, to_fixed(1e-5), 100, deep);
    assert_eq!(status, Value::Success);
}

fn assert_parts_the_range(ws: &IntegrationWorkspace, lo: i64, hi: i64) {
    let mut parts: Vec<(i64, i64)> = Vec::new();
    for k in 0..ws.size() {
        parts.push((ws.interval(k).a, ws.interval(k).b));
    }
    parts.sort();
    assert_eq!(parts[0].0, lo);
    assert_eq!(parts[parts.len() - 1].1, hi);
    for k in 1..parts.len() {
        assert_eq!(parts[k - 1].1, parts[k].0);
    }
}

#[test]
fn the_intervals_part_the_range_at_the_end() {
    let mut ws = IntegrationWorkspace::new(200).unwrap();
    let f = |x: i64| to_fixed((30.0 * to_float(x)).sin());
    ws.qag(f, -ONE, 2 * ONE, 0, to_fixed(1e-9), 200, GaussKronrodRule::Gauss15);
    assert!(ws.size() > 4);
    assert_parts_the_range(&ws, -ONE, 2 * ONE);
    ws.qag(f, 2 * ONE, -ONE, 0, to_fixed(1e-9), 200, GaussKronrodRule::Gauss15);
    assert_parts_the_range(&ws, -ONE, 2 * ONE);
    ws.qags(inverse_square_root, 0, ONE, 0, to_fixed(1e-8), 200);
    assert_parts_the_range(&ws, 0, ONE);
    ws.qagp(inverse_square_root, &[0, ONE / 3, ONE / 2, ONE], 0, to_fixed(1e-8), 200);
    assert_parts_the_range(&ws, 0, ONE);
    ws.qagi(|x: i64| to_fixed((-to_float(x).abs()).exp()), 0, to_fixed(1e-8), 200);
    assert_parts_the_range(&ws, 0, ONE);
    ws.qawc(|_x: i64| ONE, -ONE, 3 * ONE, 0, 0, to_fixed(1e-8), 200);
    assert_parts_the_range(&ws, 0, 3 * ONE);
}

#[test]
fn every_interval_holds_the_estimate_of_the_rule() {
    let mut ws = IntegrationWorkspace::new(50).unwrap();
    let f = |x: i64| to_fixed((7.0 * to_float(x)).cos().abs());
    let (_, result, abserr) = ws.qag(f, 0, 3 * ONE, 0, to_fixed(1e-7), 50, GaussKronrodRule::Gauss31);
    let mut total: i128 = 0;
    let mut error: u128 = 0;
    for k in 0..ws.size() {
        let x = ws.interval(k);
        let e = gauss_kronrod(&f, x.a, x.b, GaussKronrodRule::Gauss31);
        assert_eq!((x.result, x.error), (e.result, e.abserr));
        total += x.result as i128;
        error += x.error as u128;
    }
    assert_eq!((total, error), (result as i128, abserr as u128));
}

#[test]
fn integrate_samples_the_integrand_through_the_mapping() {
    let mut ws = IntegrationWorkspace::new(100).unwrap();
    let f = |x: i64| to_fixed((-to_float(x)).exp());
    let scheme = Scheme {
        rule: GaussKronrodRule::Gauss15,
        map: Mapping::Upward(0),
        extrapolate: true,
        watch: true,
        depth: None,
    };
    let mapped = ws.integrate(&f, 0, ONE, 0, to_fixed(1e-8), 100, scheme);
    let direct = ws.qagiu(f, 0, 0, to_fixed(1e-8), 100);
    assert_eq!(mapped, direct);
    assert!((to_float(direct.1) - 1.0).abs() < 1e-8);
}
