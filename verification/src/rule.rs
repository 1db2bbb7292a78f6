//! The quadrature rule evaluator: one Gauss-Kronrod rule applied to one
//! interval.
//!
//! The integrand is sampled at the points of the Kronrod extension, all of which
//! lie inside the interval. The Kronrod sum gives the estimate of the integral,
//! its difference from the Gauss sum the raw error estimate, and two further
//! sums (of the absolute values, and of the absolute deviations from the mean)
//! the scale against which that error is judged.
use vstd::prelude::*;
use crate::fixedpoint::{
    clamp_to_i64,
    clamp_to_u64,
    integer_root,
    magnitude,
    magnitude_of,
    midpoint,
    ONE,
    root,
    saturate,
    saturate_unsigned,
    truncated_quotient,
};
use crate::status::{tolerance_of, tolerances_valid};
use crate::rule_tables::{
    gauss_weight,
    GaussKronrodRule,
    kronrod_weight,
    node,
    table_gauss_weight,
    table_kronrod_weight,
    table_node,
    TABLE_ONE,
};
use crate::transform::Mapping;

verus! {

/// What a rule reports of one interval.
#[derive(Clone, Copy, Debug, PartialEq, Eq, Structural)]
pub struct RuleEstimate {
    /// Estimate of the integral.
    pub result: i64,
    /// Estimate of the absolute error of `result`.
    pub abserr: u64,
    /// Estimate of the integral of the absolute value of the integrand.
    pub resabs: u64,
    /// Estimate of the integral of the absolute deviation of the integrand
    /// from its mean.
    pub resasc: u64,
}

/// The table place of the `k`-th sample point, the points counted by ascending
/// abscissa.
pub open spec fn place_of(rule: GaussKronrodRule, k: int) -> int {
    let n = rule.gauss_points() as int;
    if k <= n {
        k
    } else {
        2 * n - k
    }
}

/// Half the width of `[a, b]`, rounded down.
pub open spec fn half_width(a: i64, b: i64) -> int {
    (b - a) / 2
}

/// The centre of `[a, b]`, rounded down.
pub open spec fn centre(a: i64, b: i64) -> int {
    a + (b - a) / 2
}

/// The distance of the `k`-th sample point from the centre.
pub open spec fn offset(rule: GaussKronrodRule, a: i64, b: i64, k: int) -> int {
    (half_width(a, b) * table_node(rule, place_of(rule, k))) / (TABLE_ONE as int)
}

/// The `k`-th sample point of a rule on `[a, b]`.
pub open spec fn abscissa(rule: GaussKronrodRule, a: i64, b: i64, k: int) -> int {
    if k < rule.gauss_points() {
        centre(a, b) - offset(rule, a, b, k)
    } else {
        centre(a, b) + offset(rule, a, b, k)
    }
}

/// The Kronrod sum of the first `k` samples.
pub open spec fn kronrod_sum(rule: GaussKronrodRule, v: Seq<i64>, k: nat) -> int
    decreases k,
{
    if k == 0 {
        0
    } else {
        kronrod_sum(rule, v, (k - 1) as nat) + table_kronrod_weight(rule, place_of(rule, k - 1))
            * v[k - 1]
    }
}

/// The Gauss sum of the first `k` samples.
pub open spec fn gauss_sum(rule: GaussKronrodRule, v: Seq<i64>, k: nat) -> int
    decreases k,
{
    if k == 0 {
        0
    } else {
        gauss_sum(rule, v, (k - 1) as nat) + table_gauss_weight(rule, place_of(rule, k - 1)) * v[k
            - 1]
    }
}

/// The Kronrod sum of the absolute values of the first `k` samples.
pub open spec fn absolute_sum(rule: GaussKronrodRule, v: Seq<i64>, k: nat) -> int
    decreases k,
{
    if k == 0 {
        0
    } else {
        absolute_sum(rule, v, (k - 1) as nat) + table_kronrod_weight(rule, place_of(rule, k - 1))
            * magnitude_of(v[k - 1] as int)
    }
}

/// The Kronrod sum of the absolute deviations of the first `k` samples from
/// `mean`.
pub open spec fn deviation_sum(rule: GaussKronrodRule, v: Seq<i64>, mean: int, k: nat) -> int
    decreases k,
{
    if k == 0 {
        0
    } else {
        deviation_sum(rule, v, mean, (k - 1) as nat) + table_kronrod_weight(
            rule,
            place_of(rule, k - 1),
        ) * magnitude_of(v[k - 1] - mean)
    }
}

/// The mean value of the integrand that a Kronrod sum stands for.
pub open spec fn mean_of(kronrod: int) -> int {
    clamp_to_i64(truncated_quotient(kronrod, 2 * TABLE_ONE))
}

/// The width of `[a, b]`.
pub open spec fn width_of(a: i64, b: i64) -> int {
    b - a
}

/// A weighted sum brought to the mean value that it stands for (the weights
/// of a rule sum to two) and multiplied by the whole width of the interval:
/// the product is rounded once.
pub open spec fn scaled(q: int, width: int) -> int {
    truncated_quotient(truncated_quotient(q, 2 * TABLE_ONE) * width, ONE as int)
}

/// The least error that a rule reports of an estimate, from the integral
/// `resabs` of the magnitude of the integrand: one quantum, the least error
/// that can be told, where that integral reaches one, and none below. An
/// estimate of zero has no floor.
pub open spec fn error_floor_of(resabs: int) -> int {
    if resabs >= ONE {
        1
    } else {
        0
    }
}

/// The error estimate that a rule reports, from the raw difference `raw`
/// between its two sums, the deviation estimate `resasc` and the floor.
///
/// Where the raw difference is not small against the deviation (two hundred
/// times it reaches the deviation), the rule has not begun to converge and the
/// deviation itself is reported. Otherwise the ratio `200 raw / resasc` is
/// below one and the deviation is scaled by its power 3/2. No estimate below
/// the floor is reported.
pub open spec fn rescaled_error(raw: int, resasc: int, floor: int) -> int {
    let e = if resasc != 0 && raw != 0 {
        if 200 * raw >= resasc {
            resasc
        } else {
            (200 * raw * integer_root((200 * raw * 0x1_0000_0000_0000_0000) / resasc))
                / 0x1_0000_0000
        }
    } else {
        raw
    };
    if e < floor {
        floor
    } else {
        e
    }
}

/// What a rule reports of `[a, b]` when the integrand takes the values `v` at
/// its sample points.
pub open spec fn estimate_of(rule: GaussKronrodRule, a: i64, b: i64, v: Seq<i64>) -> RuleEstimate {
    let n = rule.points();
    let width = width_of(a, b);
    let kronrod = kronrod_sum(rule, v, n);
    let gauss = gauss_sum(rule, v, n);
    let resasc = clamp_to_u64(scaled(deviation_sum(rule, v, mean_of(kronrod), n), width));
    let raw = clamp_to_u64(scaled(magnitude_of(kronrod - gauss), width));
    let resabs = clamp_to_u64(scaled(absolute_sum(rule, v, n), width));
    RuleEstimate {
        result: clamp_to_i64(scaled(kronrod, width)) as i64,
        abserr: rescaled_error(raw, resasc, error_floor_of(resabs)) as u64,
        resabs: resabs as u64,
        resasc: resasc as u64,
    }
}

/// The values `v` are values of the integrand `f`, seen through the mapping
/// `map`, at the sample points of the rule on `[a, b]`.
pub open spec fn sampled_through<F: Fn(i64) -> i64>(
    f: &F,
    map: Mapping,
    rule: GaussKronrodRule,
    a: i64,
    b: i64,
    v: Seq<i64>,
) -> bool {
    &&& v.len() == rule.points()
    &&& forall|k: int|
        0 <= k < v.len() ==> map.relates(f, abscissa(rule, a, b, k) as i64, #[trigger] v[k])
}

/// The values `v` are what the integrand `f` returned at the sample points of
/// the rule on `[a, b]`.
pub open spec fn sampled<F: Fn(i64) -> i64>(
    f: &F,
    rule: GaussKronrodRule,
    a: i64,
    b: i64,
    v: Seq<i64>,
) -> bool {
    sampled_through(f, Mapping::Identity, rule, a, b, v)
}

/// Every sample point lies inside the interval.
pub proof fn lemma_abscissa_inside(rule: GaussKronrodRule, a: i64, b: i64, k: int)
    requires
        a <= b,
        0 <= k < rule.points(),
    ensures
        a <= abscissa(rule, a, b, k) <= b,
        0 <= offset(rule, a, b, k) <= half_width(a, b),
{
    let h = half_width(a, b);
    let j = place_of(rule, k);
    assert(0 <= j <= rule.gauss_points());
    let nd = table_node(rule, j);
    assert(0 <= nd <= TABLE_ONE) by {
        lemma_table_bounds(rule, j);
    }
    assert(0 <= (h * nd) / 0x100_0000_0000_0000 <= h) by (nonlinear_arith)
        requires
            0 <= h,
            0 <= nd <= 0x100_0000_0000_0000,
    ;
}

/// The entries of the tables lie between zero and one.
pub proof fn lemma_table_bounds(rule: GaussKronrodRule, j: int)
    requires
        0 <= j <= rule.gauss_points(),
    ensures
        0 <= table_node(rule, j) <= TABLE_ONE,
        0 <= table_kronrod_weight(rule, j) <= TABLE_ONE,
        0 <= table_gauss_weight(rule, j) <= TABLE_ONE,
{
}

/// The least error that a rule reports of an estimate.
pub fn error_floor(resabs: u64) -> (r: u64)
    ensures
        r == error_floor_of(resabs as int),
{
    if resabs >= 0x100_0000_0000 {
        1
    } else {
        0
    }
}

/// The width of `[a, b]`.
pub fn width(a: i64, b: i64) -> (r: u64)
    requires
        a <= b,
    ensures
        r == width_of(a, b),
{
    ((b as i128) - (a as i128)) as u64
}

/// The error estimate that a rule reports.
pub fn rescale_error(raw: u64, resasc: u64, floor: u64) -> (r: u64)
    ensures
        r == rescaled_error(raw as int, resasc as int, floor as int),
{
    let wide: u128 = 200 * (raw as u128);
    let e: u64 = if resasc != 0 && raw != 0 {
        if wide >= resasc as u128 {
            resasc
        } else {
            let ratio: u128 = (wide * 0x1_0000_0000_0000_0000) / (resasc as u128);
            let s = root(ratio);
            proof {
                assert(ratio < 0x1_0000_0000_0000_0000) by (nonlinear_arith)
                    requires
                        ratio == (wide * 0x1_0000_0000_0000_0000) / (resasc as int),
                        0 <= wide < resasc,
                ;
                if s >= 0x1_0000_0000 {
                    assert((s as int) * (s as int) >= 0x1_0000_0000_0000_0000) by (nonlinear_arith)
                        requires
                            s >= 0x1_0000_0000,
                    ;
                }
                assert(wide * s < 0x1_0000_0000_0000_0000 * 0x1_0000_0000) by (nonlinear_arith)
                    requires
                        0 <= wide < 0x1_0000_0000_0000_0000,
                        0 <= s < 0x1_0000_0000,
                ;
            }
            ((wide * (s as u128)) / 0x1_0000_0000) as u64
        }
    } else {
        raw
    };
    if e < floor {
        floor
    } else {
        e
    }
}

/// Brings a signed weighted sum to the mean value it stands for and multiplies
/// it by the width, saturating.
pub fn scale(q: i128, half: u64) -> (r: i64)
    ensures
        r == clamp_to_i64(scaled(q as int, half as int)),
{
    let q1: i128 = q / 0x200_0000_0000_0000;
    let wide = q1.checked_mul(half as i128);
    match wide {
        Some(p) => saturate(p / 0x100_0000_0000),
        None => {
            proof {
                let p = (q1 as int) * (half as int);
                if q1 > 0 {
                    assert(p >= 0) by (nonlinear_arith)
                        requires
                            p == (q1 as int) * (half as int),
                            q1 > 0,
                            half >= 0,
                    ;
                } else {
                    assert(p <= 0) by (nonlinear_arith)
                        requires
                            p == (q1 as int) * (half as int),
                            q1 <= 0,
                            half >= 0,
                    ;
                }
            }
            if q1 > 0 {
                i64::MAX
            } else {
                i64::MIN
            }
        },
    }
}

/// Brings an unsigned weighted sum to the mean value it stands for and
/// multiplies it by the width, saturating.
pub fn scale_magnitude(q: u128, half: u64) -> (r: u64)
    ensures
        r == clamp_to_u64(scaled(q as int, half as int)),
{
    let q1: u128 = q / 0x200_0000_0000_0000;
    let wide = q1.checked_mul(half as u128);
    proof {
        let p = (q1 as int) * (half as int);
        assert(p >= 0) by (nonlinear_arith)
            requires
                p == (q1 as int) * (half as int),
                q1 >= 0,
                half >= 0,
        ;
    }
    match wide {
        Some(p) => saturate_unsigned(p / 0x100_0000_0000),
        None => u64::MAX,
    }
}

/// The sample points of a rule on `[a, b]`, by ascending abscissa. All of them
/// lie inside the interval.
pub fn sample_points(rule: GaussKronrodRule, a: i64, b: i64) -> (xs: Vec<i64>)
    requires
        a <= b,
    ensures
        xs@.len() == rule.points(),
        forall|k: int| 0 <= k < xs@.len() ==> #[trigger] xs@[k] == abscissa(rule, a, b, k),
        forall|k: int| 0 <= k < xs@.len() ==> a <= #[trigger] xs@[k] <= b,
{
    let n = rule.half_order();
    let c = midpoint(a, b);
    let half: i64 = (((b as i128) - (a as i128)) / 2) as i64;
    let mut xs: Vec<i64> = Vec::new();
    let mut k: usize = 0;
    while k < 2 * n + 1
        invariant
            a <= b,
            n == rule.gauss_points(),
            c == centre(a, b),
            half == half_width(a, b),
            k <= 2 * n + 1,
            xs@.len() == k,
            forall|i: int| 0 <= i < k ==> #[trigger] xs@[i] == abscissa(rule, a, b, i),
            forall|i: int| 0 <= i < k ==> a <= #[trigger] xs@[i] <= b,
        decreases 2 * n + 1 - k,
    {
        let j: usize = if k <= n {
            k
        } else {
            2 * n - k
        };
        let nd = node(rule, j);
        proof {
            lemma_abscissa_inside(rule, a, b, k as int);
            assert((half as int) * (nd as int) <= 0x7fff_ffff_ffff_ffff * 0x100_0000_0000_0000)
                by (nonlinear_arith)
                requires
                    0 <= half <= 0x7fff_ffff_ffff_ffff,
                    0 <= nd <= 0x100_0000_0000_0000,
            ;
            assert((half as int) * (nd as int) >= 0) by (nonlinear_arith)
                requires
                    0 <= half,
                    0 <= nd,
            ;
        }
        let off: i64 = (((half as u128) * (nd as u128)) / 0x100_0000_0000_0000) as i64;
        let x: i64 = if k < n {
            c - off
        } else {
            c + off
        };
        xs.push(x);
        k = k + 1;
    }
    xs
}

/// What a rule reports of `[a, b]` from the values of the integrand at its
/// sample points.
pub fn evaluate(rule: GaussKronrodRule, a: i64, b: i64, v: &Vec<i64>) -> (r: RuleEstimate)
    requires
        a <= b,
        v@.len() == rule.points(),
    ensures
        r == estimate_of(rule, a, b, v@),
{
    let n = rule.half_order();
    let half: i64 = (((b as i128) - (a as i128)) / 2) as i64;
    let mut kronrod: i128 = 0;
    let mut gauss: i128 = 0;
    let mut absolute: u128 = 0;
    let mut k: usize = 0;
    while k < 2 * n + 1
        invariant
            n == rule.gauss_points(),
            v@.len() == 2 * n + 1,
            k <= 2 * n + 1,
            kronrod == kronrod_sum(rule, v@, k as nat),
            gauss == gauss_sum(rule, v@, k as nat),
            absolute == absolute_sum(rule, v@, k as nat),
            -k * 0x80_0000_0000_0000_0000_0000_0000_0000 <= kronrod <= k
                * 0x80_0000_0000_0000_0000_0000_0000_0000,
            -k * 0x80_0000_0000_0000_0000_0000_0000_0000 <= gauss <= k
                * 0x80_0000_0000_0000_0000_0000_0000_0000,
            0 <= absolute <= k * 0x80_0000_0000_0000_0000_0000_0000_0000,
        decreases 2 * n + 1 - k,
    {
        let j: usize = if k <= n {
            k
        } else {
            2 * n - k
        };
        let wk = kronrod_weight(rule, j);
        let wg = gauss_weight(rule, j);
        let y = v[k];
        let m = magnitude(y);
        proof {
            lemma_term_bounds(wk as int, y as int);
            lemma_term_bounds(wg as int, y as int);
            lemma_term_bounds(wk as int, m as int);
        }
        kronrod = kronrod + (wk as i128) * (y as i128);
        gauss = gauss + (wg as i128) * (y as i128);
        absolute = absolute + (wk as u128) * (m as u128);
        k = k + 1;
    }
    let mean: i64 = saturate(kronrod / 0x200_0000_0000_0000);
    let mut deviation: u128 = 0;
    k = 0;
    while k < 2 * n + 1
        invariant
            n == rule.gauss_points(),
            v@.len() == 2 * n + 1,
            k <= 2 * n + 1,
            deviation == deviation_sum(rule, v@, mean as int, k as nat),
            0 <= deviation <= k * 0x100_0000_0000_0000_0000_0000_0000_0000,
        decreases 2 * n + 1 - k,
    {
        let j: usize = if k <= n {
            k
        } else {
            2 * n - k
        };
        let wk = kronrod_weight(rule, j);
        let d: i128 = (v[k] as i128) - (mean as i128);
        let m: u128 = if d >= 0 {
            d as u128
        } else {
            (-d) as u128
        };
        proof {
            assert(0 <= (wk as int) * (m as int) <= 0x100_0000_0000_0000_0000_0000_0000_0000)
                by (nonlinear_arith)
                requires
                    0 <= wk <= 0x100_0000_0000_0000,
                    0 <= m <= 0x1_0000_0000_0000_0000,
            ;
        }
        deviation = deviation + (wk as u128) * m;
        k = k + 1;
    }
    let difference: i128 = kronrod - gauss;
    let spread: u128 = if difference >= 0 {
        difference as u128
    } else {
        (-difference) as u128
    };
    let whole = width(a, b);
    let resasc = scale_magnitude(deviation, whole);
    let raw = scale_magnitude(spread, whole);
    let resabs = scale_magnitude(absolute, whole);
    RuleEstimate {
        result: scale(kronrod, whole),
        abserr: rescale_error(raw, resasc, error_floor(resabs)),
        resabs,
        resasc,
    }
}

/// One term of a weighted sum is bounded by the product of the bounds.
proof fn lemma_term_bounds(w: int, y: int)
    requires
        0 <= w <= 0x100_0000_0000_0000,
        -0x8000_0000_0000_0000 <= y <= 0x8000_0000_0000_0000,
    ensures
        -0x80_0000_0000_0000_0000_0000_0000_0000 <= w * y
            <= 0x80_0000_0000_0000_0000_0000_0000_0000,
{
    assert(-0x80_0000_0000_0000_0000_0000_0000_0000 <= w * y
        <= 0x80_0000_0000_0000_0000_0000_0000_0000) by (nonlinear_arith)
        requires
            0 <= w <= 0x100_0000_0000_0000,
            -0x8000_0000_0000_0000 <= y <= 0x8000_0000_0000_0000,
    ;
}

/// Applies a rule to the integrand `f`, seen through the mapping `map`, on
/// `[a, b]`. The mapped integrand is evaluated at the sample points of the rule
/// and nowhere else.
pub fn gauss_kronrod_through<F: Fn(i64) -> i64>(
    f: &F,
    map: Mapping,
    a: i64,
    b: i64,
    rule: GaussKronrodRule,
) -> (r: RuleEstimate)
    requires
        a <= b,
        map.admits(f, a, b),
    ensures
        exists|v: Seq<i64>|
            sampled_through(f, map, rule, a, b, v) && r == estimate_of(rule, a, b, v),
{
    let xs = sample_points(rule, a, b);
    let mut v: Vec<i64> = Vec::new();
    let mut k: usize = 0;
    while k < xs.len()
        invariant
            k <= xs@.len(),
            v@.len() == k,
            map.admits(f, a, b),
            forall|i: int| 0 <= i < xs@.len() ==> a <= #[trigger] xs@[i] <= b,
            forall|i: int| 0 <= i < k ==> map.relates(f, xs@[i], #[trigger] v@[i]),
        decreases xs@.len() - k,
    {
        let x = xs[k];
        let y = map.apply(f, x);
        v.push(y);
        k = k + 1;
    }
    let r = evaluate(rule, a, b, &v);
    proof {
        assert forall|i: int| 0 <= i < v@.len() implies map.relates(
            f,
            abscissa(rule, a, b, i) as i64,
            #[trigger] v@[i],
        ) by {
            assert(xs@[i] == abscissa(rule, a, b, i));
        }
        assert(sampled_through(f, map, rule, a, b, v@));
    }
    r
}

/// Applies a rule to the integrand `f` on `[a, b]`. The integrand is called at
/// the sample points of the rule and nowhere else.
pub fn gauss_kronrod<F: Fn(i64) -> i64>(f: &F, a: i64, b: i64, rule: GaussKronrodRule) -> (r:
    RuleEstimate)
    requires
        a <= b,
        forall|x: i64| a <= x <= b ==> call_requires(*f, (x,)),
    ensures
        exists|v: Seq<i64>| sampled(f, rule, a, b, v) && r == estimate_of(rule, a, b, v),
{
    let r = gauss_kronrod_through(f, Mapping::Identity, a, b, rule);
    proof {
        let v = choose|v: Seq<i64>|
            sampled_through(f, Mapping::Identity, rule, a, b, v) && r == estimate_of(
                rule,
                a,
                b,
                v,
            );
        assert(sampled(f, rule, a, b, v));
    }
    r
}


/// The sum of the Kronrod weights of the first `k` sample points.
pub open spec fn kronrod_weight_total(rule: GaussKronrodRule, k: nat) -> int
    decreases k,
{
    if k == 0 {
        0
    } else {
        kronrod_weight_total(rule, (k - 1) as nat) + table_kronrod_weight(
            rule,
            place_of(rule, k - 1),
        )
    }
}

/// The sum of the Gauss weights of the first `k` sample points.
pub open spec fn gauss_weight_total(rule: GaussKronrodRule, k: nat) -> int
    decreases k,
{
    if k == 0 {
        0
    } else {
        gauss_weight_total(rule, (k - 1) as nat) + table_gauss_weight(rule, place_of(rule, k - 1))
    }
}

proof fn lemma_weights_15()
    ensures
        kronrod_weight_total(GaussKronrodRule::Gauss15, 15) == 2 * TABLE_ONE,
        gauss_weight_total(GaussKronrodRule::Gauss15, 15) == 2 * TABLE_ONE,
{
    reveal_with_fuel(kronrod_weight_total, 16);
    reveal_with_fuel(gauss_weight_total, 16);
}

proof fn lemma_weights_21()
    ensures
        kronrod_weight_total(GaussKronrodRule::Gauss21, 21) == 2 * TABLE_ONE,
        gauss_weight_total(GaussKronrodRule::Gauss21, 21) == 2 * TABLE_ONE,
{
    reveal_with_fuel(kronrod_weight_total, 22);
    reveal_with_fuel(gauss_weight_total, 22);
}

proof fn lemma_weights_31()
    ensures
        kronrod_weight_total(GaussKronrodRule::Gauss31, 31) == 2 * TABLE_ONE,
        gauss_weight_total(GaussKronrodRule::Gauss31, 31) == 2 * TABLE_ONE,
{
    reveal_with_fuel(kronrod_weight_total, 32);
    reveal_with_fuel(gauss_weight_total, 32);
}

proof fn lemma_weights_41()
    ensures
        kronrod_weight_total(GaussKronrodRule::Gauss41, 41) == 2 * TABLE_ONE,
        gauss_weight_total(GaussKronrodRule::Gauss41, 41) == 2 * TABLE_ONE,
{
    reveal_with_fuel(kronrod_weight_total, 42);
    reveal_with_fuel(gauss_weight_total, 42);
}

proof fn lemma_weights_51()
    ensures
        kronrod_weight_total(GaussKronrodRule::Gauss51, 51) == 2 * TABLE_ONE,
        gauss_weight_total(GaussKronrodRule::Gauss51, 51) == 2 * TABLE_ONE,
{
    reveal_with_fuel(kronrod_weight_total, 52);
    reveal_with_fuel(gauss_weight_total, 52);
}

proof fn lemma_weights_61()
    ensures
        kronrod_weight_total(GaussKronrodRule::Gauss61, 61) == 2 * TABLE_ONE,
        gauss_weight_total(GaussKronrodRule::Gauss61, 61) == 2 * TABLE_ONE,
{
    reveal_with_fuel(kronrod_weight_total, 62);
    reveal_with_fuel(gauss_weight_total, 62);
}

/// The weights of either rule of a pair sum to two over the whole interval,
/// exactly.
pub proof fn lemma_weights_sum_to_two(rule: GaussKronrodRule)
    ensures
        kronrod_weight_total(rule, rule.points()) == 2 * TABLE_ONE,
        gauss_weight_total(rule, rule.points()) == 2 * TABLE_ONE,
{
    match rule {
        GaussKronrodRule::Gauss15 => lemma_weights_15(),
        GaussKronrodRule::Gauss21 => lemma_weights_21(),
        GaussKronrodRule::Gauss31 => lemma_weights_31(),
        GaussKronrodRule::Gauss41 => lemma_weights_41(),
        GaussKronrodRule::Gauss51 => lemma_weights_51(),
        GaussKronrodRule::Gauss61 => lemma_weights_61(),
    }
}

/// The sums of samples that all equal `c` are `c` times the sums of the
/// weights, and their deviation from `c` is zero.
pub proof fn lemma_constant_sums(rule: GaussKronrodRule, v: Seq<i64>, c: i64, k: nat)
    requires
        k <= v.len(),
        forall|p: int| 0 <= p < k ==> v[p] == c,
    ensures
        kronrod_sum(rule, v, k) == c * kronrod_weight_total(rule, k),
        gauss_sum(rule, v, k) == c * gauss_weight_total(rule, k),
        absolute_sum(rule, v, k) == magnitude_of(c as int) * kronrod_weight_total(rule, k),
        deviation_sum(rule, v, c as int, k) == 0,
    decreases k,
{
    if k > 0 {
        lemma_constant_sums(rule, v, c, (k - 1) as nat);
        let w = table_kronrod_weight(rule, place_of(rule, k - 1));
        let g = table_gauss_weight(rule, place_of(rule, k - 1));
        let tk = kronrod_weight_total(rule, (k - 1) as nat);
        let tg = gauss_weight_total(rule, (k - 1) as nat);
        let m = magnitude_of(c as int);
        assert(c * tk + w * c == c * (tk + w)) by (nonlinear_arith);
        assert(c * tg + g * c == c * (tg + g)) by (nonlinear_arith);
        assert(m * tk + w * m == m * (tk + w)) by (nonlinear_arith);
        assert(w * 0 == 0) by (nonlinear_arith);
    }
}

/// The integral of the magnitude of an integrand that is constantly `c` over
/// `[a, b]`.
pub open spec fn constant_magnitude(c: i64, a: i64, b: i64) -> int {
    clamp_to_u64(truncated_quotient(magnitude_of(c as int) * width_of(a, b), ONE as int))
}

/// What every rule reports of `[a, b]` for an integrand that is constantly `c`:
/// the product of `c` and the width, rounded once, the error at the floor, and
/// no deviation.
pub open spec fn constant_estimate(c: i64, a: i64, b: i64) -> RuleEstimate {
    RuleEstimate {
        result: clamp_to_i64(truncated_quotient(c * width_of(a, b), ONE as int)) as i64,
        abserr: error_floor_of(constant_magnitude(c, a, b)) as u64,
        resabs: constant_magnitude(c, a, b) as u64,
        resasc: 0,
    }
}

/// A rule applied to samples that all equal `c` reports the constant estimate:
/// the two sums of the pair agree, so nothing but the floor is left of the
/// error.
pub proof fn lemma_constant_samples(rule: GaussKronrodRule, a: i64, b: i64, v: Seq<i64>, c: i64)
    requires
        a <= b,
        v.len() == rule.points(),
        forall|p: int| 0 <= p < v.len() ==> v[p] == c,
    ensures
        estimate_of(rule, a, b, v) == constant_estimate(c, a, b),
{
    let n = rule.points();
    let h = width_of(a, b);
    let m = magnitude_of(c as int);
    lemma_weights_sum_to_two(rule);
    lemma_constant_sums(rule, v, c, n);
    let kronrod = kronrod_sum(rule, v, n);
    assert(kronrod == c * 0x200_0000_0000_0000);
    assert(gauss_sum(rule, v, n) == kronrod);
    assert(truncated_quotient(kronrod, 0x200_0000_0000_0000) == c);
    assert(mean_of(kronrod) == c);
    assert(truncated_quotient(m * 0x200_0000_0000_0000, 0x200_0000_0000_0000) == m);
    assert(scaled(kronrod, h) == truncated_quotient(c * h, ONE as int));
    assert(scaled(absolute_sum(rule, v, n), h) == truncated_quotient(m * h, ONE as int));
    assert(0 * h == 0) by (nonlinear_arith);
    assert(scaled(0, h) == 0);
}

/// Under valid tolerances the floor of an estimate is within the error that
/// the estimate may have.
pub proof fn lemma_floor_within_tolerance(epsabs: i64, epsrel: i64, result: i64)
    requires
        tolerances_valid(epsabs, epsrel),
    ensures
        error_floor_of(magnitude_of(result as int)) <= tolerance_of(epsabs, epsrel, result),
{
    let m = magnitude_of(result as int);
    if epsabs <= 0 && m >= ONE {
        assert(epsrel * m >= ONE) by (nonlinear_arith)
            requires
                epsrel >= 1,
                m >= ONE,
        ;
    }
}

/// Under valid tolerances the floor of the estimate of a constant integrand is
/// within the error that the estimate may have.
pub proof fn lemma_constant_floor_within_tolerance(
    epsabs: i64,
    epsrel: i64,
    c: i64,
    a: i64,
    b: i64,
)
    requires
        a <= b,
        tolerances_valid(epsabs, epsrel),
    ensures
        constant_estimate(c, a, b).abserr <= tolerance_of(
            epsabs,
            epsrel,
            constant_estimate(c, a, b).result,
        ),
{
    let w = width_of(a, b);
    let m = magnitude_of(c as int);
    if c < 0 {
        assert(c * w == -(m * w)) by (nonlinear_arith)
            requires
                m == -c,
        ;
        assert(m * w >= 0) by (nonlinear_arith)
            requires
                m >= 0,
                w >= 0,
        ;
    } else {
        assert(c * w >= 0) by (nonlinear_arith)
            requires
                c >= 0,
                w >= 0,
        ;
    }
    lemma_floor_within_tolerance(epsabs, epsrel, constant_estimate(c, a, b).result);
}

} // verus!
