use quadrature::fixedpoint::ONE;
use quadrature::transform::{cauchy_value, Mapping};
use quadrature::weighted::{cauchy_range, check_qaws_parameters, distance, logarithmic_factor, CauchyRange, Weight};
use quadrature::{
    IntegrationQawo, IntegrationQawoTable, IntegrationQawsTable, IntegrationWorkspace, Value,
};
use std::cell::Cell;

fn to_fixed(x: f64) -> i64 {
    (x * ONE as f64).round() as i64
}

fn to_float(x: i64) -> f64 {
    x as f64 / ONE as f64
}

#[test]
fn cauchy_range_folds_the_range_about_the_singular_point() {
    assert_eq!(cauchy_range(-10, 30, 0), Some(CauchyRange { start: 0, near: 10, end: 30 }));
    assert_eq!(cauchy_range(-30, 10, 0), Some(CauchyRange { start: 0, near: 10, end: 30 }));
    assert_eq!(cauchy_range(-10, 10, 0), Some(CauchyRange { start: 0, near: 10, end: 10 }));
    assert_eq!(cauchy_range(5, 9, 2), Some(CauchyRange { start: 3, near: 3, end: 7 }));
    assert_eq!(cauchy_range(5, 9, 12), Some(CauchyRange { start: 3, near: 3, end: 7 }));
}

#[test]
fn cauchy_range_refuses_a_singular_point_at_an_end() {
    assert_eq!(cauchy_range(5, 9, 5), None);
    assert_eq!(cauchy_range(5, 9, 9), None);
    assert_eq!(cauchy_range(5, 5, 5), None);
}

#[test]
fn cauchy_range_refuses_distances_beyond_the_largest_value() {
    assert_eq!(cauchy_range(i64::MIN, i64::MAX, 0), None);
    assert_eq!(cauchy_range(0, i64::MAX, -1), None);
    assert_eq!(cauchy_range(i64::MIN, 0, 0), None);
    assert_eq!(
        cauchy_range(-i64::MAX, i64::MAX, 0),
        Some(CauchyRange { start: 0, near: i64::MAX, end: i64::MAX })
    );
}

#[test]
fn cauchy_value_is_the_difference_over_the_distance() {
    assert_eq!(cauchy_value(5 * ONE, 3 * ONE, 2 * ONE), ONE);
    assert_eq!(cauchy_value(3 * ONE, 5 * ONE, 2 * ONE), -ONE);
    assert_eq!(cauchy_value(ONE, 0, ONE / 4), 4 * ONE);
    assert_eq!(cauchy_value(i64::MAX, i64::MIN, 1), i64::MAX);
}

#[test]
fn qawc_computes_a_principal_value() {
    let mut ws = IntegrationWorkspace::new(1000).unwrap();
    let f = |x: i64| {
        let t = to_float(x);
        to_fixed(1.0 / (5.0 * t * t * t + 6.0))
    };
    let (status, result, abserr) = ws.qawc(f, -ONE, 5 * ONE, 0, 0, to_fixed(1e-7), 1000);
    assert_eq!(status, Value::Success);
    assert!((to_float(result) + 0.08994400695837).abs() < 1e-9);
    assert!(to_float(abserr as i64) < 1e-8);
    let reversed = ws.qawc(f, 5 * ONE, -ONE, 0, 0, to_fixed(1e-7), 1000);
    assert_eq!(reversed, (Value::Success, -result, abserr));
}

#[test]
fn qawc_of_a_constant_is_the_logarithm_of_the_ratio_of_the_distances() {
    let mut ws = IntegrationWorkspace::new(1000).unwrap();
    let (status, result, _) = ws.qawc(|_x: i64| ONE, -ONE, 2 * ONE, 0, 0, to_fixed(1e-8), 1000);
    assert_eq!(status, Value::Success);
    assert!((to_float(result) - 2f64.ln()).abs() < 1e-9);
    let (status, result, abserr) = ws.qawc(|_x: i64| ONE, -ONE, ONE, 0, 2, 0, 1000);
    assert_eq!((status, result, abserr), (Value::Success, 0, 0));
    assert_eq!(ws.size(), 1);
    let (status, result, abserr) = ws.qawc(|_x: i64| ONE, -ONE, ONE, 0, 0, to_fixed(1e-8), 1000);
    assert_eq!((status, result, abserr), (Value::Success, 0, 0));
}

#[test]
fn qawc_with_the_singular_point_outside_is_an_ordinary_integral() {
    let mut ws = IntegrationWorkspace::new(1000).unwrap();
    let (status, result, _) = ws.qawc(|_x: i64| ONE, ONE, 2 * ONE, 0, 0, to_fixed(1e-8), 1000);
    assert_eq!(status, Value::Success);
    assert!((to_float(result) - 2f64.ln()).abs() < 1e-9);
    let (status, result, _) = ws.qawc(|_x: i64| ONE, ONE, 2 * ONE, 3 * ONE, 0, to_fixed(1e-8), 1000);
    assert_eq!(status, Value::Success);
    assert!((to_float(result) + 2f64.ln()).abs() < 1e-9);
}

#[test]
fn qawc_never_calls_the_integrand_outside_the_range() {
    let mut ws = IntegrationWorkspace::new(100).unwrap();
    let (a, b) = (-ONE, 3 * ONE);
    let f = |x: i64| {
        assert!(a <= x && x <= b);
        x
    };
    let (status, result, _) = ws.qawc(f, a, b, ONE / 3, 0, to_fixed(1e-7), 100);
    assert_eq!(status, Value::Success);
    let exact = 4.0 + (1.0 / 3.0) * ((3.0 - 1.0 / 3.0) / (1.0 + 1.0 / 3.0) as f64).ln();
    assert!((to_float(result) - exact).abs() < 1e-6);
}

#[test]
fn qawc_refuses_a_singular_point_at_an_end() {
    let mut ws = IntegrationWorkspace::new(100).unwrap();
    let calls = Cell::new(0usize);
    let f = |x: i64| {
        calls.set(calls.get() + 1);
        x
    };
    assert_eq!(ws.qawc(&f, 0, 2 * ONE, ONE, 1 << 30, 0, 1).0, Value::Success);
    assert_eq!(ws.size(), 1);
    calls.set(0);
    assert_eq!(ws.qawc(&f, 0, ONE, 0, 1, 0, 10), (Value::BadArgument, 0, 0));
    assert_eq!(ws.size(), 0);
    assert_eq!(ws.qawc(&f, 0, ONE, ONE, 1, 0, 10), (Value::BadArgument, 0, 0));
    assert_eq!(ws.qawc(&f, ONE, 0, ONE, 1, 0, 10), (Value::BadArgument, 0, 0));
    assert_eq!(ws.qawc(&f, 0, 3 * ONE, ONE, 1, 0, 101), (Value::BadArgument, 0, 0));
    assert_eq!(ws.qawc(&f, i64::MIN, i64::MAX, 0, 1, 0, 10), (Value::BadArgument, 0, 0));
    assert_eq!(calls.get(), 0);
    assert_eq!(ws.qawc(&f, 0, 3 * ONE, ONE, 1 << 30, 0, 2).0, Value::Success);
}

#[test]
fn qawc_serves_a_limit_below_the_number_of_parts() {
    let mut ws = IntegrationWorkspace::new(100).unwrap();
    let f = |x: i64| x;
    let one = ws.qawc(f, 0, 3 * ONE, ONE, 1, 0, 1);
    assert_eq!(one.0, Value::IntervalLimitReached);
    assert_eq!(ws.size(), 2);
    assert_eq!(one, ws.qawc(f, 0, 3 * ONE, ONE, 1, 0, 2));
    assert_eq!(one, ws.qawc(f, 0, 3 * ONE, ONE, 1, 0, 0));
}

#[test]
fn qaws_parameters_must_describe_an_integrable_weight() {
    assert!(check_qaws_parameters(0, 0, 0, 0));
    assert!(check_qaws_parameters(-ONE + 1, -ONE + 1, 1, 1));
    assert!(!check_qaws_parameters(-ONE, 0, 0, 0));
    assert!(!check_qaws_parameters(0, -ONE, 0, 0));
    assert!(!check_qaws_parameters(0, 0, 2, 0));
    assert!(!check_qaws_parameters(0, 0, 0, -1));
    assert!(IntegrationQawsTable::new(-ONE, 0, 0, 0).is_none());
    assert!(IntegrationQawsTable::new(0, 0, 0, 2).is_none());
}

#[test]
fn a_qaws_table_holds_its_parameters() {
    let mut t = IntegrationQawsTable::new(ONE / 2, -ONE / 2, 1, 0).unwrap();
    assert_eq!((t.alpha(), t.beta(), t.mu(), t.nu(), t.generation()), (ONE / 2, -ONE / 2, 1, 0, 0));
    assert_eq!(t.set(0, ONE, 0, 1), Value::Success);
    assert_eq!((t.alpha(), t.beta(), t.mu(), t.nu(), t.generation()), (0, ONE, 0, 1, 1));
    assert_eq!(t.set(-ONE, ONE, 0, 1), Value::BadArgument);
    assert_eq!(t.set(0, ONE, 3, 1), Value::BadArgument);
    assert_eq!((t.alpha(), t.beta(), t.mu(), t.nu(), t.generation()), (0, ONE, 0, 1, 1));
    assert_eq!(t.set(0, ONE, 0, 1), Value::Success);
    assert_eq!(t.generation(), 2);
}

#[test]
fn qaws_integrates_against_a_singular_weight() {
    let mut ws = IntegrationWorkspace::new(1000).unwrap();
    let mut t = IntegrationQawsTable::new(-ONE / 2, 0, 0, 0).unwrap();
    let (lo, hi) = (0, ONE);
    let f = |x: i64| to_fixed(to_float(x).cos());
    let (status, result, _) = t.qaws(f, lo, hi, 0, to_fixed(1e-7), 1000, &mut ws);
    assert_eq!(status, Value::Success);
    assert!((to_float(result) - 1.8090484758005442).abs() < 1e-6);
    assert_eq!(t.generation(), 0);
}

#[test]
fn qaws_refuses_a_range_that_does_not_ascend() {
    let mut ws = IntegrationWorkspace::new(10).unwrap();
    let mut t = IntegrationQawsTable::new(0, 0, 0, 0).unwrap();
    let one = |_x: i64| ONE;
    assert_eq!(t.qaws(one, 0, 3 * ONE, 4, 0, 10, &mut ws), (Value::Success, 3 * ONE, 1));
    assert_eq!(ws.size(), 1);
    assert_eq!(t.qaws(one, ONE, ONE, 1, 0, 10, &mut ws), (Value::BadArgument, 0, 0));
    assert_eq!(ws.size(), 0);
    assert_eq!(t.qaws(one, ONE, 0, 1, 0, 10, &mut ws), (Value::BadArgument, 0, 0));
    assert_eq!(t.qaws(one, 0, ONE, 0, 0, 10, &mut ws), (Value::BadArgument, 0, 0));
    assert_eq!(t.qaws(one, 0, ONE, 1, 0, 11, &mut ws), (Value::BadArgument, 0, 0));
    assert_eq!(t.qaws(one, 0, 3 * ONE, 4, 0, 0, &mut ws), (Value::Success, 3 * ONE, 1));
}

#[test]
fn a_qawo_table_needs_a_level_and_holds_its_parameters() {
    assert!(IntegrationQawoTable::new(ONE, ONE, IntegrationQawo::Sine, 0).is_none());
    let mut t = IntegrationQawoTable::new(3 * ONE, 2 * ONE, IntegrationQawo::Cosine, 7).unwrap();
    assert_eq!(
        (t.omega(), t.length(), t.sine(), t.levels(), t.generation()),
        (3 * ONE, 2 * ONE, IntegrationQawo::Cosine, 7, 0)
    );
    assert_eq!(t.set(ONE, ONE, IntegrationQawo::Sine), Value::Success);
    assert_eq!(
        (t.omega(), t.length(), t.sine(), t.levels(), t.generation()),
        (ONE, ONE, IntegrationQawo::Sine, 7, 1)
    );
    assert_eq!(t.set_length(ONE), Value::Success);
    assert_eq!(t.generation(), 1);
    assert_eq!(t.set_length(5 * ONE), Value::Success);
    assert_eq!((t.length(), t.generation(), t.omega()), (5 * ONE, 2, ONE));
}

#[test]
fn qawo_integrates_against_an_oscillatory_weight() {
    let mut ws = IntegrationWorkspace::new(1000).unwrap();
    let omega = 10.0 * std::f64::consts::PI;
    let mut t = IntegrationQawoTable::new(to_fixed(omega), ONE, IntegrationQawo::Sine, 1000).unwrap();
    let f = |x: i64| if x <= 0 { 0 } else { to_fixed(to_float(x).ln()) };
    let (status, result, _) = t.qawo(f, 0, 0, to_fixed(1e-7), 1000, &mut ws);
    assert_eq!(status, Value::Success);
    assert!((to_float(result) + 0.1281368483991674).abs() < 1e-8);
}

#[test]
fn qawo_reports_a_table_with_too_few_levels() {
    let mut ws = IntegrationWorkspace::new(1000).unwrap();
    let omega = 10.0 * std::f64::consts::PI;
    let mut t = IntegrationQawoTable::new(to_fixed(omega), ONE, IntegrationQawo::Sine, 2).unwrap();
    let f = |x: i64| if x <= 0 { 0 } else { to_fixed(to_float(x).ln()) };
    let (status, result, abserr) = t.qawo(f, 0, 0, to_fixed(1e-7), 1000, &mut ws);
    assert_eq!(status, Value::TableInsufficient);
    assert_eq!(ws.maximum_level(), 2);
    assert!((to_float(result) + 0.128).abs() < 0.01);
    assert!(abserr > 0);
}

#[test]
fn qawo_integrates_over_the_length_of_its_table() {
    let mut ws = IntegrationWorkspace::new(10).unwrap();
    let mut t = IntegrationQawoTable::new(0, 3 * ONE, IntegrationQawo::Cosine, 5).unwrap();
    let one = |_x: i64| ONE;
    assert_eq!(t.qawo(one, 2 * ONE, 4, 0, 10, &mut ws), (Value::Success, 3 * ONE, 1));
    assert_eq!(ws.worst().a, 2 * ONE);
    assert_eq!(ws.worst().b, 5 * ONE);
    assert_eq!(t.qawo(one, 2 * ONE, 4, 0, 0, &mut ws), (Value::Success, 3 * ONE, 1));
    t.set_length(-ONE);
    assert_eq!(t.qawo(one, 2 * ONE, 4, 0, 10, &mut ws), (Value::BadArgument, 0, 0));
    assert_eq!(ws.size(), 0);
    t.set_length(i64::MAX);
    assert_eq!(t.qawo(one, 2 * ONE, 4, 0, 10, &mut ws), (Value::BadArgument, 0, 0));
    t.set_length(0);
    assert_eq!(t.qawo(one, 2 * ONE, 4, 0, 10, &mut ws), (Value::Success, 0, 0));
}

#[test]
fn the_cauchy_mapping_folds_the_integrand_about_the_singular_point() {
    let map = Mapping::Cauchy { lo: -2 * ONE, hi: 5 * ONE, c: ONE };
    let f = |x: i64| {
        assert!(-2 * ONE <= x && x <= 5 * ONE);
        3 * x
    };
    assert_eq!(map.apply(&f, 0), 0);
    assert_eq!(map.apply(&f, -ONE), 0);
    assert_eq!(map.apply(&f, ONE), 6 * ONE);
    assert_eq!(map.apply(&f, 3 * ONE), 6 * ONE);
    assert_eq!(map.apply(&f, 4 * ONE), 15 * ONE / 4);
    assert_eq!(map.apply(&f, 5 * ONE), 0);
}

#[test]
fn the_mappings_of_infinite_ranges_vanish_outside_the_unit_range() {
    let f = |x: i64| x;
    for map in [Mapping::Upward(7), Mapping::Downward(7)] {
        assert_eq!(map.apply(&f, 0), 0);
        assert_eq!(map.apply(&f, -5), 0);
        assert_eq!(map.apply(&f, ONE + 1), 0);
    }
    assert_eq!(Mapping::Upward(3 * ONE).apply(&f, ONE), 3 * ONE);
    assert_eq!(Mapping::Upward(3 * ONE).apply(&f, ONE / 2), 16 * ONE);
    assert_eq!(Mapping::Downward(3 * ONE).apply(&f, ONE / 2), 8 * ONE);
    assert_eq!(Mapping::WholeLine.apply(&f, ONE / 2), 0);
    assert_eq!(Mapping::WholeLine.apply(&|x: i64| x * 0 + ONE, ONE / 2), 8 * ONE);
    assert_eq!(Mapping::WholeLine.apply(&f, 0), 0);
    assert_eq!(Mapping::Identity.apply(&f, -17), -17);
}

#[test]
fn the_weight_of_a_qaws_table_is_the_product_of_its_powers_and_logarithms() {
    let (a, b) = (ONE, 3 * ONE);
    for (alpha, beta, mu, nu) in [(0.0, 0.0, 0, 0), (-0.5, 0.25, 0, 0), (0.5, -0.75, 1, 0), (1.5, 0.0, 0, 1), (-0.25, 2.0, 1, 1)] {
        let t = IntegrationQawsTable::new(to_fixed(alpha), to_fixed(beta), mu, nu).unwrap();
        let w = t.weight(a, b);
        for k in 1..40 {
            let x = 1.0 + 0.05 * k as f64;
            let mut expected = (x - 1.0).powf(alpha) * (3.0 - x).powf(beta);
            if mu == 1 {
                expected *= (x - 1.0).ln();
            }
            if nu == 1 {
                expected *= (3.0 - x).ln();
            }
            let got = to_float(w.at(to_fixed(x)));
            assert!((got - expected).abs() < 1e-9 * (1.0 + expected.abs()), "{} {} {}", x, got, expected);
        }
    }
}

#[test]
fn the_weight_of_a_qaws_table_without_powers_is_one() {
    let t = IntegrationQawsTable::new(0, 0, 0, 0).unwrap();
    let w = t.weight(0, ONE);
    assert_eq!(w, Weight::Algebraic { a: 0, b: ONE, alpha: 0, beta: 0, logarithm_left: false, logarithm_right: false });
    for x in [0, 1, ONE / 2, ONE - 1, ONE] {
        assert_eq!(w.at(x), ONE);
    }
}

#[test]
fn the_weight_at_an_end_of_the_range_is_the_limit_of_its_power() {
    let rising = IntegrationQawsTable::new(ONE / 2, 0, 0, 0).unwrap().weight(0, ONE);
    assert_eq!(rising.at(0), 0);
    let falling = IntegrationQawsTable::new(-ONE / 2, 0, 0, 0).unwrap().weight(0, ONE);
    assert_eq!(falling.at(0), i64::MAX);
    let damped = IntegrationQawsTable::new(ONE / 2, 0, 1, 0).unwrap().weight(0, ONE);
    assert_eq!(damped.at(0), 0);
    assert_eq!(damped.at(-5), 0);
}

#[test]
fn the_weight_of_a_qawo_table_is_a_sine_or_a_cosine() {
    let omega = 2.5;
    let s = IntegrationQawoTable::new(to_fixed(omega), ONE, IntegrationQawo::Sine, 3).unwrap().weight();
    let c = IntegrationQawoTable::new(to_fixed(omega), ONE, IntegrationQawo::Cosine, 3).unwrap().weight();
    assert_eq!(s, Weight::Sine { omega: to_fixed(omega) });
    assert_eq!(c, Weight::Cosine { omega: to_fixed(omega) });
    for k in -40..40 {
        let x = 0.37 * k as f64;
        assert!((to_float(s.at(to_fixed(x))) - (omega * x).sin()).abs() < 1e-10);
        assert!((to_float(c.at(to_fixed(x))) - (omega * x).cos()).abs() < 1e-10);
    }
}

#[test]
fn distance_is_zero_where_the_second_point_is_not_above_the_first() {
    assert_eq!(distance(3, 10), 7);
    assert_eq!(distance(10, 3), 0);
    assert_eq!(distance(4, 4), 0);
    assert_eq!(distance(i64::MIN, i64::MAX), i64::MAX);
    assert_eq!(distance(-5, 5), 10);
}

#[test]
fn a_logarithmic_factor_is_one_where_the_weight_has_none() {
    assert_eq!(logarithmic_factor(false, 5 * ONE), ONE);
    assert_eq!(logarithmic_factor(false, 0), ONE);
    assert_eq!(logarithmic_factor(true, ONE), 0);
    assert_eq!(logarithmic_factor(true, 0), i64::MIN);
    assert!((to_float(logarithmic_factor(true, 5 * ONE)) - 5f64.ln()).abs() < 1e-11);
}

#[test]
fn qaws_integrates_against_a_weight_with_a_logarithm() {
    let mut ws = IntegrationWorkspace::new(1000).unwrap();
    let mut t = IntegrationQawsTable::new(0, 0, 1, 0).unwrap();
    let f = |_x: i64| ONE;
    let (status, result, _) = t.qaws(f, 0, ONE, 0, to_fixed(1e-7), 1000, &mut ws);
    assert_eq!(status, Value::Success);
    assert!((to_float(result) + 1.0).abs() < 1e-6);
}

#[test]
fn qawo_integrates_against_a_cosine() {
    let mut ws = IntegrationWorkspace::new(100).unwrap();
    let mut t = IntegrationQawoTable::new(3 * ONE, 2 * ONE, IntegrationQawo::Cosine, 20).unwrap();
    let f = |x: i64| x;
    let (status, result, _) = t.qawo(f, 0, 0, to_fixed(1e-8), 100, &mut ws);
    assert_eq!(status, Value::Success);
    let exact = (6f64.cos() + 6.0 * 6f64.sin() - 1.0) / 9.0;
    assert!((to_float(result) - exact).abs() < 1e-8);
}
