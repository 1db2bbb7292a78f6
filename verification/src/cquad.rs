//! Doubly adaptive integration with nested Clenshaw-Curtis rules.
//!
//! Every interval carries the level of the rule that estimated it. The interval
//! with the largest error is processed: while a higher rule exists, the
//! interval is raised to the next rule and stays whole; only an interval of the
//! highest level is bisected, and its halves start at the lowest level. The
//! rules are nested, so raising an interval takes over the values of the
//! integrand that its estimate was made from and evaluates the integrand at the
//! new points only. When the workspace is full, the interval with the smallest
//! error leaves it; its estimates are kept and stay part of the result.
use vstd::prelude::*;
use crate::adaptive::{constant_on, lower_of, oriented, upper_of};
use crate::analysis_tables::{
    analysis_entry,
    analysis_entry_of,
    ANALYSIS_ONE,
    lemma_lowest_rows,
    row_sum,
};
use crate::curtis_tables::{
    curtis_node,
    curtis_node_of,
    CURTIS_NODES,
    curtis_weight,
    curtis_weight_of,
    degree,
    degree_of,
    HIGHEST_LEVEL,
    tabulated,
};
use crate::fixedpoint::{
    clamp_to_i64,
    clamp_to_u64,
    integer_root,
    is_integer_root,
    lemma_integer_root_unique,
    magnitude,
    magnitude_of,
    midpoint,
    negate,
    ONE,
    root,
    saturate,
    saturate_unsigned,
    truncated_quotient,
};
use crate::rule::{
    centre,
    error_floor,
    error_floor_of,
    half_width,
    lemma_floor_within_tolerance,
    scale,
    scaled,
    width,
    width_of,
};
use crate::status::{check_tolerances, tolerance, tolerance_of, tolerances_valid, Value};
use crate::workspace::{
    IntegrationWorkspace,
    leaving_place,
    lemma_leaving,
    lemma_placed_ascending,
    lemma_rank_parts,
    lemma_single,
    rank_of,
    Subinterval,
    WorkingSet,
};

verus! {

/// What a Clenshaw-Curtis rule reports of one interval.
#[derive(Clone, Copy, Debug, PartialEq, Eq, Structural)]
pub struct CurtisEstimate {
    /// Estimate of the integral.
    pub result: i64,
    /// Estimate of the absolute error of `result`.
    pub abserr: u64,
}

/// The `p`-th sample point of the rule of a degree on `[a, b]`, the points
/// counted by ascending abscissa. The first and the last lie close to the ends
/// of the interval.
pub open spec fn curtis_abscissa(degree: int, a: i64, b: i64, p: int) -> int {
    let off = (half_width(a, b) * curtis_node_of(degree, p)) / 0x100_0000_0000_0000;
    if p < degree / 2 {
        centre(a, b) - off
    } else {
        centre(a, b) + off
    }
}

/// The weighted sum of the first `k` samples under the rule of a degree.
pub open spec fn curtis_sum(degree: int, v: Seq<i64>, k: nat) -> int
    decreases k,
{
    if k == 0 {
        0
    } else {
        curtis_sum(degree, v, (k - 1) as nat) + curtis_weight_of(degree, k - 1) * v[k - 1]
    }
}

/// The `k`-th coefficient of the interpolating polynomial of a degree through
/// every `stride`-th of the samples `v`, summed over the first `j` of them, in
/// the unit of the matrix entries; the sum saturates.
pub open spec fn coefficient_sum(degree: int, stride: int, v: Seq<i64>, k: int, j: nat) -> int
    decreases j,
{
    if j == 0 {
        0
    } else {
        wide_sum(
            coefficient_sum(degree, stride, v, k, (j - 1) as nat),
            analysis_entry_of(degree, k, j - 1) * v[(j - 1) * stride],
        )
    }
}

/// The `k`-th coefficient of the interpolating polynomial of a degree through
/// every `stride`-th of the samples `v`, in quanta. A polynomial has no
/// coefficients beyond its degree.
pub open spec fn coefficient_of(degree: int, stride: int, v: Seq<i64>, k: int) -> int {
    if k > degree {
        0
    } else {
        truncated_quotient(
            coefficient_sum(degree, stride, v, k, (degree + 1) as nat),
            ANALYSIS_ONE as int,
        )
    }
}

/// How far the `k`-th coefficients of the interpolating polynomials of a
/// degree and of half the degree lie apart.
pub open spec fn coefficient_gap(degree: int, v: Seq<i64>, k: int) -> int {
    magnitude_of(
        clamp_to_i64(coefficient_of(degree, 1, v, k) - coefficient_of(degree / 2, 2, v, k)),
    )
}

/// The sum of the squares of the first `k` gaps between the coefficients; the
/// sum saturates.
pub open spec fn gap_squares(degree: int, v: Seq<i64>, k: nat) -> int
    decreases k,
{
    if k == 0 {
        0
    } else {
        wide_sum_unsigned(
            gap_squares(degree, v, (k - 1) as nat),
            coefficient_gap(degree, v, k - 1) * coefficient_gap(degree, v, k - 1),
        )
    }
}

/// The norm over `[-1, 1]` of the difference between the interpolating
/// polynomials of a degree and of half the degree through the samples `v`: the
/// root of the sum of the squares of the gaps between their coefficients.
pub open spec fn interpolant_distance(degree: int, v: Seq<i64>) -> int {
    integer_root(gap_squares(degree, v, (degree + 1) as nat))
}

/// What the rule of a level reports of `[a, b]` when the integrand takes the
/// values `v` at its sample points: the estimate of the rule, and as its error
/// the norm of the difference between the interpolating polynomials of the
/// rule and of the rule of half the degree, times the width of the interval,
/// but no less than the error floor.
pub open spec fn curtis_estimate_of(level: int, a: i64, b: i64, v: Seq<i64>) -> CurtisEstimate {
    let d = degree_of(level);
    let result = clamp_to_i64(scaled(curtis_sum(d, v, (d + 1) as nat), width_of(a, b)));
    let distance = clamp_to_u64(interpolant_distance(d, v) * (b - a) / (ONE as int));
    CurtisEstimate {
        result: result as i64,
        abserr: if distance < error_floor_of(magnitude_of(result)) {
            error_floor_of(magnitude_of(result)) as u64
        } else {
            distance as u64
        },
    }
}

/// The values `v` are what `f` returned at the sample points of the rule of a
/// level on `[a, b]`.
pub open spec fn curtis_sampled<F: Fn(i64) -> i64>(
    f: &F,
    level: int,
    a: i64,
    b: i64,
    v: Seq<i64>,
) -> bool {
    &&& v.len() == degree_of(level) + 1
    &&& forall|p: int|
        0 <= p < v.len() ==> call_ensures(
            *f,
            (curtis_abscissa(degree_of(level), a, b, p) as i64,),
            #[trigger] v[p],
        )
}

/// Every sample point lies inside the interval.
pub proof fn lemma_curtis_inside(degree: int, a: i64, b: i64, p: int)
    requires
        a <= b,
        tabulated(degree),
        0 <= p <= degree,
    ensures
        a <= curtis_abscissa(degree, a, b, p) <= b,
{
    let h = half_width(a, b);
    let nd = curtis_node_of(degree, p);
    let k = if p <= degree / 2 {
        p
    } else {
        degree - p
    };
    let stride = 32int / degree;
    assert(0 <= k * stride <= 16) by (nonlinear_arith)
        requires
            (degree == 2 && stride == 16 && 0 <= k <= 1) || (degree == 4 && stride == 8 && 0 <= k
                <= 2) || (degree == 8 && stride == 4 && 0 <= k <= 4) || (degree == 16 && stride
                == 2 && 0 <= k <= 8) || (degree == 32 && stride == 1 && 0 <= k <= 16),
    ;
    assert(0 <= nd <= 0x100_0000_0000_0000);
    assert(0 <= (h * nd) / 0x100_0000_0000_0000 <= h) by (nonlinear_arith)
        requires
            0 <= h,
            0 <= nd <= 0x100_0000_0000_0000,
    ;
}

/// The sample points of the rule of a level on `[a, b]`, by ascending
/// abscissa. All of them lie inside the interval.
pub fn curtis_points(level: usize, a: i64, b: i64) -> (xs: Vec<i64>)
    requires
        a <= b,
        level <= HIGHEST_LEVEL,
    ensures
        xs@.len() == degree_of(level as int) + 1,
        forall|p: int|
            0 <= p < xs@.len() ==> #[trigger] xs@[p] == curtis_abscissa(
                degree_of(level as int),
                a,
                b,
                p,
            ),
        forall|p: int| 0 <= p < xs@.len() ==> a <= #[trigger] xs@[p] <= b,
{
    let d = degree(level);
    let c = midpoint(a, b);
    let half: i64 = (((b as i128) - (a as i128)) / 2) as i64;
    let mut xs: Vec<i64> = Vec::new();
    let mut p: usize = 0;
    while p < d + 1
        invariant
            a <= b,
            d == degree_of(level as int),
            tabulated(d as int),
            c == centre(a, b),
            half == half_width(a, b),
            p <= d + 1,
            xs@.len() == p,
            forall|i: int| 0 <= i < p ==> #[trigger] xs@[i] == curtis_abscissa(d as int, a, b, i),
            forall|i: int| 0 <= i < p ==> a <= #[trigger] xs@[i] <= b,
        decreases d + 1 - p,
    {
        let nd = curtis_node(d, p);
        proof {
            lemma_curtis_inside(d as int, a, b, p as int);
            assert((half as int) * (nd as int) <= 0x7fff_ffff_ffff_ffff * 0x100_0000_0000_0000)
                by (nonlinear_arith)
                requires
                    0 <= half <= 0x7fff_ffff_ffff_ffff,
                    0 <= nd <= 0x100_0000_0000_0000,
            ;
            assert((half as int) * (nd as int) >= 0) by (nonlinear_arith)
                requires
                    0 <= half,
                    0 <= nd,
            ;
        }
        let off: i64 = (((half as u128) * (nd as u128)) / 0x100_0000_0000_0000) as i64;
        let x: i64 = if p < d / 2 {
            c - off
        } else {
            c + off
        };
        xs.push(x);
        p = p + 1;
    }
    xs
}

/// The `k`-th coefficient of the interpolating polynomial of a degree through
/// every `stride`-th of the samples.
pub fn coefficient(degree: usize, stride: usize, v: &[i64], k: usize) -> (r: i128)
    requires
        tabulated(degree as int),
        stride == 1 || stride == 2,
        v@.len() == degree * stride + 1,
    ensures
        r == coefficient_of(degree as int, stride as int, v@, k as int),
        -0x1_0000_0000_0000_0000_0000 <= r <= 0x1_0000_0000_0000_0000_0000,
{
    if k > degree {
        return 0;
    }
    let mut sum: i128 = 0;
    let mut j: usize = 0;
    while j < degree + 1
        invariant
            tabulated(degree as int),
            stride == 1 || stride == 2,
            v@.len() == degree * stride + 1,
            k <= degree,
            j <= degree + 1,
            sum == coefficient_sum(degree as int, stride as int, v@, k as int, j as nat),
        decreases degree + 1 - j,
    {
        let t = analysis_entry(degree, k, j);
        assert(j * stride <= degree * stride) by (nonlinear_arith)
            requires
                j <= degree,
                stride >= 1,
        ;
        let y = v[j * stride];
        assert(-0x4000_0000_0000_0000_0000_0000_0000_0000 <= (t as int) * (y as int)
            <= 0x4000_0000_0000_0000_0000_0000_0000_0000) by (nonlinear_arith)
            requires
                -0x8000_0000_0000_0000 <= t <= 0x8000_0000_0000_0000,
                -0x8000_0000_0000_0000 <= y <= 0x8000_0000_0000_0000,
        ;
        sum = add_wide(sum, (t as i128) * (y as i128));
        j = j + 1;
    }
    sum / ANALYSIS_ONE
}

/// The norm of the difference between the interpolating polynomials of a
/// degree and of half the degree through the samples.
pub fn interpolants_apart(d: usize, v: &[i64]) -> (r: u64)
    requires
        tabulated(d as int),
        d >= 4,
        v@.len() == d + 1,
    ensures
        r == interpolant_distance(d as int, v@),
{
    let mut squares: u128 = 0;
    let mut k: usize = 0;
    while k < d + 1
        invariant
            tabulated(d as int),
            d >= 4,
            v@.len() == d + 1,
            k <= d + 1,
            squares == gap_squares(d as int, v@, k as nat),
        decreases d + 1 - k,
    {
        let upper = coefficient(d, 1, v, k);
        let lower = coefficient(d / 2, 2, v, k);
        let gap = magnitude(saturate(upper - lower));
        assert((gap as int) * (gap as int) <= u128::MAX) by (nonlinear_arith)
            requires
                0 <= gap <= 0xffff_ffff_ffff_ffff,
        ;
        squares = add_wide_unsigned(squares, (gap as u128) * (gap as u128));
        k = k + 1;
    }
    root(squares)
}

/// What the rule of a level reports of `[a, b]` from the values of the
/// integrand at its sample points.
pub fn curtis_evaluate(level: usize, a: i64, b: i64, v: &[i64]) -> (r: CurtisEstimate)
    requires
        a <= b,
        level <= HIGHEST_LEVEL,
        v@.len() == degree_of(level as int) + 1,
    ensures
        r == curtis_estimate_of(level as int, a, b, v@),
{
    let d = degree(level);
    let half: i64 = (((b as i128) - (a as i128)) / 2) as i64;
    let mut upper: i128 = 0;
    let mut k: usize = 0;
    while k < d + 1
        invariant
            d == degree_of(level as int),
            tabulated(d as int),
            d >= 4,
            v@.len() == d + 1,
            k <= d + 1,
            upper == curtis_sum(d as int, v@, k as nat),
            -k * 0x100_0000_0000_0000_0000_0000_0000_0000 <= upper <= k
                * 0x100_0000_0000_0000_0000_0000_0000_0000,
        decreases d + 1 - k,
    {
        let y = v[k];
        let w = curtis_weight(d, k);
        proof {
            lemma_wide_term(w as int, y as int);
        }
        upper = upper + (w as i128) * (y as i128);
        k = k + 1;
    }
    let result = scale(upper, width(a, b));
    let norm = interpolants_apart(d, v);
    let whole: u128 = width(a, b) as u128;
    assert((norm as int) * (whole as int) <= u128::MAX) by (nonlinear_arith)
        requires
            0 <= norm <= 0xffff_ffff_ffff_ffff,
            0 <= whole <= 0xffff_ffff_ffff_ffff,
    ;
    let distance = saturate_unsigned((norm as u128) * whole / (ONE as u128));
    let floor = error_floor(magnitude(result));
    CurtisEstimate {
        result,
        abserr: if distance < floor {
            floor
        } else {
            distance
        },
    }
}

/// One term of a weighted sum is bounded by the product of the bounds.
proof fn lemma_wide_term(w: int, y: int)
    requires
        0 <= w <= 0x200_0000_0000_0000,
        -0x8000_0000_0000_0000 <= y <= 0x8000_0000_0000_0000,
    ensures
        -0x100_0000_0000_0000_0000_0000_0000_0000 <= w * y
            <= 0x100_0000_0000_0000_0000_0000_0000_0000,
{
    assert(-0x100_0000_0000_0000_0000_0000_0000_0000 <= w * y
        <= 0x100_0000_0000_0000_0000_0000_0000_0000) by (nonlinear_arith)
        requires
            0 <= w <= 0x200_0000_0000_0000,
            -0x8000_0000_0000_0000 <= y <= 0x8000_0000_0000_0000,
    ;
}

/// Applies the rule of a level to the integrand `f` on `[a, b]`, and returns
/// the values of the integrand at the sample points beside the estimate. The
/// integrand is called at the sample points of the rule and nowhere else.
pub fn clenshaw_curtis_samples<F: Fn(i64) -> i64>(f: &F, a: i64, b: i64, level: usize) -> (r: (
    CurtisEstimate,
    Vec<i64>,
))
    requires
        a <= b,
        level <= HIGHEST_LEVEL,
        forall|x: i64| a <= x <= b ==> call_requires(*f, (x,)),
    ensures
        curtis_sampled(f, level as int, a, b, r.1@),
        r.0 == curtis_estimate_of(level as int, a, b, r.1@),
{
    let xs = curtis_points(level, a, b);
    let mut v: Vec<i64> = Vec::new();
    let mut k: usize = 0;
    while k < xs.len()
        invariant
            k <= xs@.len(),
            v@.len() == k,
            forall|x: i64| a <= x <= b ==> call_requires(*f, (x,)),
            forall|i: int| 0 <= i < xs@.len() ==> a <= #[trigger] xs@[i] <= b,
            forall|i: int| 0 <= i < k ==> call_ensures(*f, (xs@[i],), #[trigger] v@[i]),
        decreases xs@.len() - k,
    {
        let y = f(xs[k]);
        v.push(y);
        k = k + 1;
    }
    let r = curtis_evaluate(level, a, b, v.as_slice());
    proof {
        assert forall|p: int| 0 <= p < v@.len() implies call_ensures(
            *f,
            (curtis_abscissa(degree_of(level as int), a, b, p) as i64,),
            #[trigger] v@[p],
        ) by {
            assert(xs@[p] == curtis_abscissa(degree_of(level as int), a, b, p));
        }
        assert(curtis_sampled(f, level as int, a, b, v@));
    }
    (r, v)
}

/// Applies the rule of a level to the integrand `f` on `[a, b]`. The integrand
/// is called at the sample points of the rule and nowhere else.
pub fn clenshaw_curtis<F: Fn(i64) -> i64>(f: &F, a: i64, b: i64, level: usize) -> (r:
    CurtisEstimate)
    requires
        a <= b,
        level <= HIGHEST_LEVEL,
        forall|x: i64| a <= x <= b ==> call_requires(*f, (x,)),
    ensures
        exists|v: Seq<i64>| #[trigger]
            curtis_sampled(f, level as int, a, b, v) && r == curtis_estimate_of(
                level as int,
                a,
                b,
                v,
            ),
{
    let (r, v) = clenshaw_curtis_samples(f, a, b, level);
    proof {
        assert(curtis_sampled(f, level as int, a, b, v@));
    }
    r
}

/// The rules are nested: every second sample point of the rule of a level above
/// the lowest is a sample point of the rule of the level below.
pub proof fn lemma_nested_points(level: int, a: i64, b: i64, q: int)
    requires
        0 <= level < HIGHEST_LEVEL,
        0 <= q <= degree_of(level),
    ensures
        curtis_abscissa(degree_of(level + 1), a, b, 2 * q) == curtis_abscissa(
            degree_of(level),
            a,
            b,
            q,
        ),
{
    let d = degree_of(level);
    let k = if q <= d / 2 {
        q
    } else {
        d - q
    };
    assert(curtis_node_of(2 * d, 2 * q) == CURTIS_NODES[(2 * k) * (32int / (2 * d))]);
    assert(curtis_node_of(d, q) == CURTIS_NODES[k * (32int / d)]);
    assert((2 * k) * (32int / (2 * d)) == k * (32int / d)) by (nonlinear_arith)
        requires
            d == 4 || d == 8 || d == 16,
    ;
}

/// Applies the rule of the level above `level` to the integrand `f` on
/// `[a, b]`, given the values `lower` of `f` at the sample points of the rule of
/// `level`: those values are taken over, and the integrand is called at the
/// other sample points only.
pub fn raise<F: Fn(i64) -> i64>(f: &F, a: i64, b: i64, level: usize, lower: &Vec<i64>) -> (r: (
    CurtisEstimate,
    Vec<i64>,
))
    requires
        a <= b,
        level < HIGHEST_LEVEL,
        curtis_sampled(f, level as int, a, b, lower@),
        forall|x: i64| a <= x <= b ==> call_requires(*f, (x,)),
    ensures
        curtis_sampled(f, level + 1, a, b, r.1@),
        r.0 == curtis_estimate_of(level + 1, a, b, r.1@),
        forall|q: int| 0 <= q <= degree_of(level as int) ==> r.1@[2 * q] == lower@[q],
{
    let xs = curtis_points(level + 1, a, b);
    let ghost upper = degree_of(level + 1);
    let mut v: Vec<i64> = Vec::new();
    let mut p: usize = 0;
    while p < xs.len()
        invariant
            level < HIGHEST_LEVEL,
            upper == degree_of(level + 1),
            upper == 2 * degree_of(level as int),
            xs@.len() == upper + 1,
            lower@.len() == degree_of(level as int) + 1,
            p <= xs@.len(),
            v@.len() == p,
            curtis_sampled(f, level as int, a, b, lower@),
            forall|x: i64| a <= x <= b ==> call_requires(*f, (x,)),
            forall|i: int| 0 <= i < xs@.len() ==> a <= #[trigger] xs@[i] <= b,
            forall|i: int| 0 <= i < xs@.len() ==> #[trigger] xs@[i] == curtis_abscissa(upper, a, b, i),
            forall|i: int| 0 <= i < p ==> call_ensures(*f, (xs@[i],), #[trigger] v@[i]),
            forall|q: int| 0 <= q && 2 * q < p ==> v@[2 * q] == lower@[q],
        decreases xs@.len() - p,
    {
        let y = if p % 2 == 0 {
            proof {
                lemma_nested_points(level as int, a, b, (p / 2) as int);
                assert(call_ensures(
                    *f,
                    (curtis_abscissa(degree_of(level as int), a, b, (p / 2) as int) as i64,),
                    lower@[(p / 2) as int],
                ));
            }
            lower[p / 2]
        } else {
            f(xs[p])
        };
        v.push(y);
        p = p + 1;
    }
    let e = curtis_evaluate(level + 1, a, b, v.as_slice());
    proof {
        assert forall|i: int| 0 <= i < v@.len() implies call_ensures(
            *f,
            (curtis_abscissa(degree_of(level + 1), a, b, i) as i64,),
            #[trigger] v@[i],
        ) by {
            assert(xs@[i] == curtis_abscissa(upper, a, b, i));
        }
    }
    (e, v)
}

/// The estimates of the interval are what the rule of its level gives for its
/// range from the values `v`, which the integrand `f` returned at the sample
/// points of that rule.
pub open spec fn curtis_estimated<F: Fn(i64) -> i64>(f: &F, x: Subinterval, v: Seq<i64>) -> bool {
    &&& x.level <= HIGHEST_LEVEL
    &&& x.a <= x.b
    &&& curtis_sampled(f, x.level as int, x.a, x.b, v)
    &&& x.result == curtis_estimate_of(x.level as int, x.a, x.b, v).result
    &&& x.error == curtis_estimate_of(x.level as int, x.a, x.b, v).abserr
}

/// The values in `store` are, place by place, those from which the estimates of
/// the intervals in `s` were made.
pub open spec fn aligned<F: Fn(i64) -> i64>(
    f: &F,
    s: Seq<Subinterval>,
    store: Seq<Vec<i64>>,
) -> bool {
    &&& store.len() == s.len()
    &&& forall|i: int| #![trigger s[i]] 0 <= i < s.len() ==> curtis_estimated(f, s[i], store[i]@)
}

/// The estimates of the interval are what the rule of its level gives for the
/// integrand `f`.
pub open spec fn has_curtis_estimate<F: Fn(i64) -> i64>(f: &F, x: Subinterval) -> bool {
    exists|v: Seq<i64>| #[trigger] curtis_estimated(f, x, v)
}

/// The estimates of every interval of the sequence are what the rule of its
/// level gives for the integrand `f`.
pub open spec fn all_curtis_estimated<F: Fn(i64) -> i64>(f: &F, s: Seq<Subinterval>) -> bool {
    forall|i: int| 0 <= i < s.len() ==> has_curtis_estimate(f, #[trigger] s[i])
}

/// Aligned sequences stay aligned when an interval and its values enter at the
/// same place.
pub proof fn lemma_aligned_insert<F: Fn(i64) -> i64>(
    f: &F,
    s: Seq<Subinterval>,
    store: Seq<Vec<i64>>,
    p: int,
    x: Subinterval,
    v: Vec<i64>,
)
    requires
        aligned(f, s, store),
        0 <= p <= s.len(),
        curtis_estimated(f, x, v@),
    ensures
        aligned(f, s.insert(p, x), store.insert(p, v)),
{
    let s1 = s.insert(p, x);
    let t1 = store.insert(p, v);
    assert forall|i: int| #![trigger s1[i]] 0 <= i < s1.len() implies curtis_estimated(
        f,
        s1[i],
        t1[i]@,
    ) by {
        if i < p {
            assert(s1[i] == s[i] && t1[i] == store[i]);
        } else if i > p {
            assert(s1[i] == s[i - 1] && t1[i] == store[i - 1]);
        }
    }
}

/// Aligned sequences stay aligned when an interval and its values leave from
/// the same place.
pub proof fn lemma_aligned_remove<F: Fn(i64) -> i64>(
    f: &F,
    s: Seq<Subinterval>,
    store: Seq<Vec<i64>>,
    p: int,
)
    requires
        aligned(f, s, store),
        0 <= p < s.len(),
    ensures
        aligned(f, s.remove(p), store.remove(p)),
{
    let s2 = s.remove(p);
    let t2 = store.remove(p);
    assert forall|i: int| #![trigger s2[i]] 0 <= i < s2.len() implies curtis_estimated(
        f,
        s2[i],
        t2[i]@,
    ) by {
        if i < p {
            assert(s2[i] == s[i] && t2[i] == store[i]);
        } else {
            assert(s2[i] == s[i + 1] && t2[i] == store[i + 1]);
        }
    }
}

/// The estimates of every interval of an aligned sequence are what the rule of
/// its level gives.
pub proof fn lemma_aligned_estimated<F: Fn(i64) -> i64>(
    f: &F,
    s: Seq<Subinterval>,
    store: Seq<Vec<i64>>,
)
    requires
        aligned(f, s, store),
    ensures
        all_curtis_estimated(f, s),
{
    assert forall|i: int| 0 <= i < s.len() implies has_curtis_estimate(f, #[trigger] s[i]) by {
        assert(curtis_estimated(f, s[i], store[i]@));
    }
}

/// The work that an interval can still cause: it falls with every promotion to
/// a higher rule, and the two halves of an interval of the highest level cause
/// less than the interval itself.
pub open spec fn effort_of(x: Subinterval) -> int {
    8 * (x.b - x.a) - x.level - 4
}

/// The work that the intervals of a sequence can still cause.
pub open spec fn effort(s: Seq<Subinterval>) -> int
    decreases s.len(),
{
    if s.len() == 0 {
        0
    } else {
        effort(s.drop_last()) + effort_of(s.last())
    }
}

/// The interval is at least one quantum wide, of a level for which a rule
/// exists, and inside `[lo, hi]`.
pub open spec fn fits(x: Subinterval, lo: i64, hi: i64) -> bool {
    x.b - x.a >= 1 && x.level <= HIGHEST_LEVEL && lo <= x.a && x.b <= hi
}

/// Every interval of the sequence fits.
pub open spec fn all_fit(s: Seq<Subinterval>, lo: i64, hi: i64) -> bool {
    forall|i: int| 0 <= i < s.len() ==> fits(#[trigger] s[i], lo, hi)
}

/// Entering an interval at any place adds its effort and keeps the fit.
pub proof fn lemma_effort_insert(s: Seq<Subinterval>, p: int, x: Subinterval, lo: i64, hi: i64)
    requires
        0 <= p <= s.len(),
    ensures
        effort(s.insert(p, x)) == effort(s) + effort_of(x),
        all_fit(s, lo, hi) && fits(x, lo, hi) ==> all_fit(s.insert(p, x), lo, hi),
    decreases s.len(),
{
    let t = s.insert(p, x);
    if p == s.len() {
        assert(t.drop_last() =~= s);
    } else {
        assert(t.drop_last() =~= s.drop_last().insert(p, x));
        assert(t.last() == s.last());
        lemma_effort_insert(s.drop_last(), p, x, lo, hi);
    }
    if all_fit(s, lo, hi) && fits(x, lo, hi) {
        assert forall|i: int| 0 <= i < t.len() implies fits(#[trigger] t[i], lo, hi) by {
            if i < p {
                assert(t[i] == s[i]);
            } else if i > p {
                assert(t[i] == s[i - 1]);
            }
        }
    }
}

/// Taking an interval out at any place takes its effort out and keeps the fit.
pub proof fn lemma_effort_remove(s: Seq<Subinterval>, p: int, lo: i64, hi: i64)
    requires
        0 <= p < s.len(),
    ensures
        effort(s.remove(p)) == effort(s) - effort_of(s[p]),
        all_fit(s, lo, hi) ==> all_fit(s.remove(p), lo, hi),
    decreases s.len(),
{
    let t = s.remove(p);
    if p == s.len() - 1 {
        assert(t =~= s.drop_last());
    } else {
        assert(t.drop_last() =~= s.drop_last().remove(p));
        assert(t.last() == s.last());
        lemma_effort_remove(s.drop_last(), p, lo, hi);
    }
    if all_fit(s, lo, hi) {
        assert forall|i: int| 0 <= i < t.len() implies fits(#[trigger] t[i], lo, hi) by {
            if i < p {
                assert(t[i] == s[i]);
            } else {
                assert(t[i] == s[i + 1]);
            }
        }
    }
}

/// Intervals that fit cause work: the effort of the sequence is at least the
/// number of its intervals.
pub proof fn lemma_effort_positive(s: Seq<Subinterval>, lo: i64, hi: i64)
    requires
        all_fit(s, lo, hi),
    ensures
        effort(s) >= s.len(),
    decreases s.len(),
{
    if s.len() > 0 {
        let t = s.drop_last();
        assert forall|i: int| 0 <= i < t.len() implies fits(#[trigger] t[i], lo, hi) by {
            assert(t[i] == s[i]);
        }
        lemma_effort_positive(t, lo, hi);
        assert(fits(s.last(), lo, hi));
    }
}

/// The sum of two wide signed totals, saturated.
pub open spec fn wide_sum(x: int, y: int) -> int {
    if x + y > i128::MAX {
        i128::MAX as int
    } else if x + y < i128::MIN {
        i128::MIN as int
    } else {
        x + y
    }
}

/// The sum of two wide unsigned totals, saturated.
pub open spec fn wide_sum_unsigned(x: int, y: int) -> int {
    if x + y > u128::MAX {
        u128::MAX as int
    } else {
        x + y
    }
}

/// The sum of two wide signed totals, saturated.
pub fn add_wide(x: i128, y: i128) -> (r: i128)
    ensures
        r == wide_sum(x as int, y as int),
{
    match x.checked_add(y) {
        Some(s) => s,
        None => if x > 0 {
            i128::MAX
        } else {
            i128::MIN
        },
    }
}

/// The sum of two wide unsigned totals, saturated.
pub fn add_wide_unsigned(x: u128, y: u128) -> (r: u128)
    ensures
        r == wide_sum_unsigned(x as int, y as int),
{
    match x.checked_add(y) {
        Some(s) => s,
        None => u128::MAX,
    }
}

/// The first estimate in a doubly adaptive integration of `[lo, hi]`, from the
/// values `v` of the integrand at the sample points of the lowest rule.
pub open spec fn first_interval(lo: i64, hi: i64, v: Seq<i64>) -> Subinterval {
    Subinterval {
        a: lo,
        b: hi,
        result: curtis_estimate_of(0, lo, hi, v).result,
        error: curtis_estimate_of(0, lo, hi, v).abserr,
        level: 0,
    }
}

/// The mathematical content of the workspace of a doubly adaptive integration.
pub struct CquadModel {
    /// The active intervals.
    pub set: WorkingSet,
    /// Sum of the integral estimates of the intervals that have left.
    pub retired_result: int,
    /// Sum of the error estimates of the intervals that have left.
    pub retired_error: int,
}

impl CquadModel {
    /// The estimate of the integral over the ordered range: the sum over the
    /// active intervals and those that have left, saturated.
    pub open spec fn result(self) -> int {
        clamp_to_i64(wide_sum(self.set.total_result(), self.retired_result))
    }

    /// The estimate of the error: the sum over the active intervals and those
    /// that have left, saturated.
    pub open spec fn error(self) -> int {
        clamp_to_u64(wide_sum_unsigned(self.set.total_error(), self.retired_error))
    }

    /// The values `v` are what the integrand returned at the sample points of
    /// the lowest rule on the whole range, and if the first estimate, made from
    /// them, is within tolerance, the integration has succeeded at once: with
    /// `evaluations` evaluations, five, and the whole range as the one interval.
    pub open spec fn settled_at_once<F: Fn(i64) -> i64>(
        self,
        f: &F,
        lo: i64,
        hi: i64,
        epsabs: i64,
        epsrel: i64,
        v: Seq<i64>,
        status: Value,
        evaluations: usize,
    ) -> bool {
        let first = first_interval(lo, hi, v);
        &&& curtis_sampled(f, 0, lo, hi, v)
        &&& first.error <= tolerance_of(epsabs, epsrel, first.result) ==> status is Success
            && evaluations == 5 && self.set.active =~= seq![first] && self.retired_result == 0
            && self.retired_error == 0
    }
}

/// The estimate `e` is what the rule of a level gives for `[a, b]` from values
/// of the integrand `f` at the sample points of the rule.
pub open spec fn curtis_estimate_from<F: Fn(i64) -> i64>(
    f: &F,
    level: int,
    a: i64,
    b: i64,
    e: CurtisEstimate,
) -> bool {
    exists|v: Seq<i64>| #[trigger]
        curtis_sampled(f, level, a, b, v) && e == curtis_estimate_of(level, a, b, v)
}

/// The interval `[a, b]` with the estimates `e` of the rule of a level.
pub open spec fn estimated(a: i64, b: i64, level: usize, e: CurtisEstimate) -> Subinterval {
    Subinterval { a, b, result: e.result, error: e.abserr, level }
}

/// One step of a doubly adaptive integration: what the rules reported when the
/// interval with the largest error was processed. Where the interval was raised
/// to the next level, `first` is the estimate of the rule of that level; where
/// it was bisected, `first` and `second` are the estimates of the lowest rule
/// for its lower and its upper half; where it left the workspace, neither
/// counts.
pub struct Refinement {
    pub first: CurtisEstimate,
    pub second: CurtisEstimate,
}

impl CquadModel {
    /// The error estimate is within the tolerance for the estimate of the
    /// integral.
    pub open spec fn met(self, epsabs: i64, epsrel: i64) -> bool {
        self.error() <= tolerance_of(epsabs, epsrel, self.result() as i64)
    }

    /// No further step can bring the error within the tolerance: no interval is
    /// left, or the error of the intervals that have left exceeds the tolerance
    /// by itself.
    pub open spec fn hopeless(self, epsabs: i64, epsrel: i64) -> bool {
        self.set.active.len() == 0 || clamp_to_u64(self.retired_error) > tolerance_of(
            epsabs,
            epsrel,
            self.result() as i64,
        )
    }

    /// The integration goes on with another step.
    pub open spec fn goes_on(self, epsabs: i64, epsrel: i64) -> bool {
        !self.met(epsabs, epsrel) && !self.hopeless(epsabs, epsrel)
    }

    /// The content after the interval `out` has left the working set: its
    /// estimates are added to the sums over the intervals that have left.
    pub open spec fn with_retired(self, out: Subinterval) -> CquadModel {
        CquadModel {
            set: self.set,
            retired_result: wide_sum(self.retired_result, out.result as int),
            retired_error: wide_sum_unsigned(self.retired_error, out.error as int),
        }
    }

    /// The content after the step `step`: the interval with the largest error
    /// is raised to the next level; or, at the highest level, it leaves when it
    /// is less than two quanta wide, and else is replaced by its two halves,
    /// for which the interval with the smallest error leaves when the working
    /// set is full.
    pub open spec fn refined(self, step: Refinement) -> CquadModel {
        let worst = self.set.worst();
        let rest = self.set.reduced();
        if worst.level < HIGHEST_LEVEL {
            CquadModel {
                set: rest.entered(
                    estimated(worst.a, worst.b, (worst.level + 1) as usize, step.first),
                ),
                ..self
            }
        } else if worst.b - worst.a < 2 {
            (CquadModel { set: rest, ..self }).with_retired(worst)
        } else {
            let mid = centre(worst.a, worst.b) as i64;
            let lower = estimated(worst.a, mid, 0, step.first);
            let upper = estimated(mid, worst.b, 0, step.second);
            let grown = rest.entered(lower);
            match grown.displaced(upper) {
                Some(out) => (CquadModel { set: grown.entered(upper), ..self }).with_retired(out),
                None => CquadModel { set: grown.entered(upper), ..self },
            }
        }
    }

    /// The number of evaluations of the integrand that the next step takes: to
    /// raise an interval, as many as the rule of the next level has new sample
    /// points; to bisect it, those of the lowest rule for either half.
    pub open spec fn cost(self) -> usize {
        let worst = self.set.worst();
        if worst.level < HIGHEST_LEVEL {
            (degree_of(worst.level + 1) / 2) as usize
        } else if worst.b - worst.a < 2 {
            0
        } else {
            10
        }
    }

    /// The estimates of the step `step` are those of the rules for the integrand
    /// `f`, for the interval with the largest error or for its halves.
    pub open spec fn measured<F: Fn(i64) -> i64>(self, f: &F, step: Refinement) -> bool {
        let worst = self.set.worst();
        if worst.level < HIGHEST_LEVEL {
            curtis_estimate_from(f, worst.level + 1, worst.a, worst.b, step.first)
        } else if worst.b - worst.a < 2 {
            true
        } else {
            let mid = centre(worst.a, worst.b) as i64;
            curtis_estimate_from(f, 0, worst.a, mid, step.first) && curtis_estimate_from(
                f,
                0,
                mid,
                worst.b,
                step.second,
            )
        }
    }
}

/// The state of a doubly adaptive integration between two steps.
pub struct CquadCourse {
    /// The content of the workspace.
    pub model: CquadModel,
    /// The number of evaluations of the integrand so far, saturated.
    pub evaluations: usize,
}

impl CquadCourse {
    /// The state after the step `step`.
    pub open spec fn advanced(self, step: Refinement) -> CquadCourse {
        CquadCourse {
            model: self.model.refined(step),
            evaluations: if self.evaluations + self.model.cost() > usize::MAX {
                usize::MAX
            } else {
                (self.evaluations + self.model.cost()) as usize
            },
        }
    }

    /// The state after the steps `steps`, one after the other.
    #[verifier::opaque]
    pub open spec fn followed(self, steps: Seq<Refinement>) -> CquadCourse
        decreases steps.len(),
    {
        if steps.len() == 0 {
            self
        } else {
            self.followed(steps.drop_last()).advanced(steps.last())
        }
    }

    /// What an integration that ends in this state reports: `Success` when the
    /// tolerance is met and else that round-off limits the integration, the
    /// estimates of the integral and of its error, and the number of
    /// evaluations.
    pub open spec fn report(self, epsabs: i64, epsrel: i64) -> (Value, i64, u64, usize) {
        (
            if self.model.met(epsabs, epsrel) {
                Value::Success
            } else {
                Value::RoundoffLimited
            },
            self.model.result() as i64,
            self.model.error() as u64,
            self.evaluations,
        )
    }
}

/// The step `step` is due in the state `before`: the integration goes on, and
/// the estimates of the step are those of the rules for the integrand `f`.
pub open spec fn cquad_due<F: Fn(i64) -> i64>(
    f: &F,
    epsabs: i64,
    epsrel: i64,
    before: CquadCourse,
    step: Refinement,
) -> bool {
    before.model.goes_on(epsabs, epsrel) && before.model.measured(f, step)
}

/// Every step of `steps` was due when it was done.
pub open spec fn cquad_legitimate<F: Fn(i64) -> i64>(
    f: &F,
    epsabs: i64,
    epsrel: i64,
    start: CquadCourse,
    steps: Seq<Refinement>,
) -> bool {
    forall|i: int|
        0 <= i < steps.len() ==> cquad_due(
            f,
            epsabs,
            epsrel,
            start.followed(steps.take(i)),
            #[trigger] steps[i],
        )
}

/// The doubly adaptive integration of `f` from `a` to `b`, which found the
/// workspace as `before`, has taken this course: the first estimate of the
/// whole range was `first`, the steps were `steps`, every estimate is one of
/// the rules for `f`, the workspace is left as `end`, and the result `r` is
/// the report at the end of the course, the sign of the integral turned when
/// `b < a`.
pub open spec fn cquad_ran<F: Fn(i64) -> i64>(
    f: &F,
    a: i64,
    b: i64,
    epsabs: i64,
    epsrel: i64,
    before: CquadModel,
    first: CurtisEstimate,
    steps: Seq<Refinement>,
    end: CquadModel,
    r: (Value, i64, u64, usize),
) -> bool {
    let lo = lower_of(a, b);
    let hi = upper_of(a, b);
    let start = CquadCourse {
        model: CquadModel {
            set: before.set.cleared().entered(estimated(lo, hi, 0, first)),
            retired_result: 0,
            retired_error: 0,
        },
        evaluations: 5,
    };
    let last = start.followed(steps);
    let report = last.report(epsabs, epsrel);
    &&& curtis_estimate_from(f, 0, lo, hi, first)
    &&& cquad_legitimate(f, epsabs, epsrel, start, steps)
    &&& !last.model.goes_on(epsabs, epsrel)
    &&& last.model == end
    &&& r == (report.0, oriented(a, b, report.1 as int) as i64, report.2, report.3)
}

/// No step leaves the state as it is, and one more step advances the state that
/// the steps before it led to.
pub proof fn lemma_cquad_followed(start: CquadCourse, steps: Seq<Refinement>, step: Refinement)
    ensures
        start.followed(Seq::<Refinement>::empty()) == start,
        start.followed(steps.push(step)) == start.followed(steps).advanced(step),
{
    reveal(CquadCourse::followed);
    assert(steps.push(step).drop_last() =~= steps);
}

/// One more step that is due keeps a course legitimate.
pub proof fn lemma_cquad_course_extended<F: Fn(i64) -> i64>(
    f: &F,
    epsabs: i64,
    epsrel: i64,
    start: CquadCourse,
    steps: Seq<Refinement>,
    step: Refinement,
)
    requires
        cquad_legitimate(f, epsabs, epsrel, start, steps),
        cquad_due(f, epsabs, epsrel, start.followed(steps), step),
    ensures
        cquad_legitimate(f, epsabs, epsrel, start, steps.push(step)),
{
    let longer = steps.push(step);
    assert forall|i: int| 0 <= i < longer.len() implies cquad_due(
        f,
        epsabs,
        epsrel,
        start.followed(longer.take(i)),
        #[trigger] longer[i],
    ) by {
        if i < steps.len() {
            assert(longer.take(i) =~= steps.take(i));
            assert(longer[i] == steps[i]);
        } else {
            assert(longer.take(i) =~= steps);
        }
    }
}

/// The sum of the weights of the first `k` sample points of the rule of a
/// degree.
pub open spec fn curtis_weight_total(degree: int, k: nat) -> int
    decreases k,
{
    if k == 0 {
        0
    } else {
        curtis_weight_total(degree, (k - 1) as nat) + curtis_weight_of(degree, k - 1)
    }
}

/// The weights of the lowest rule sum to two over the whole interval, exactly.
pub proof fn lemma_lowest_weights_sum_to_two()
    ensures
        curtis_weight_total(4, 5) == 0x200_0000_0000_0000,
{
    reveal_with_fuel(curtis_weight_total, 6);
}

/// The sum of samples that all equal `c` is `c` times the sum of the weights.
pub proof fn lemma_constant_curtis_sums(degree: int, v: Seq<i64>, c: i64, k: nat)
    requires
        k <= v.len(),
        forall|p: int| 0 <= p < k ==> v[p] == c,
    ensures
        curtis_sum(degree, v, k) == c * curtis_weight_total(degree, k),
    decreases k,
{
    if k > 0 {
        lemma_constant_curtis_sums(degree, v, c, (k - 1) as nat);
        let w = curtis_weight_of(degree, k - 1);
        let tw = curtis_weight_total(degree, (k - 1) as nat);
        assert(c * tw + w * c == c * (tw + w)) by (nonlinear_arith);
    }
}

/// A coefficient of the interpolating polynomial through samples that all
/// equal `c` is `c` times the sum of its row of the matrix, as far as no entry
/// of the row exceeds one.
pub proof fn lemma_constant_coefficient_sum(
    degree: int,
    stride: int,
    v: Seq<i64>,
    c: i64,
    k: int,
    j: nat,
)
    requires
        j <= 33,
        stride >= 1,
        (j - 1) * stride < v.len(),
        forall|p: int| 0 <= p < v.len() ==> v[p] == c,
        forall|p: int|
            0 <= p < j ==> -ANALYSIS_ONE <= #[trigger] analysis_entry_of(degree, k, p)
                <= ANALYSIS_ONE,
    ensures
        coefficient_sum(degree, stride, v, k, j) == c * row_sum(degree, k, j),
        -j * ANALYSIS_ONE <= row_sum(degree, k, j) <= j * ANALYSIS_ONE,
    decreases j,
{
    if j > 0 {
        assert((j - 2) * stride <= (j - 1) * stride) by (nonlinear_arith)
            requires
                stride >= 1,
        ;
        assert(0 <= (j - 1) * stride) by (nonlinear_arith)
            requires
                stride >= 1,
                j >= 1,
        ;
        lemma_constant_coefficient_sum(degree, stride, v, c, k, (j - 1) as nat);
        let t = analysis_entry_of(degree, k, j - 1);
        let before = row_sum(degree, k, (j - 1) as nat);
        assert(v[(j - 1) * stride] == c);
        assert(c * before + t * c == c * (before + t)) by (nonlinear_arith);
        assert(-0x8000_0000_0000_0000 * (33 * 0x1_0000_0000_0000) <= c * (before + t)
            <= 0x8000_0000_0000_0000 * (33 * 0x1_0000_0000_0000)) by (nonlinear_arith)
            requires
                -0x8000_0000_0000_0000 <= c <= 0x8000_0000_0000_0000,
                -33 * 0x1_0000_0000_0000 <= before + t <= 33 * 0x1_0000_0000_0000,
        ;
    }
}

/// Samples that all equal `c` have the same coefficients under the lowest rule
/// and under the rule that its error is judged against: both interpolating
/// polynomials are the constant itself.
pub proof fn lemma_constant_coefficients(v: Seq<i64>, c: i64, k: int)
    requires
        v.len() == 5,
        forall|p: int| 0 <= p < v.len() ==> v[p] == c,
        0 <= k <= 4,
    ensures
        coefficient_gap(4, v, k) == 0,
{
    lemma_lowest_rows(4, k);
    lemma_constant_coefficient_sum(4, 1, v, c, k, 5);
    if k <= 2 {
        lemma_lowest_rows(2, k);
        lemma_constant_coefficient_sum(2, 2, v, c, k, 3);
    }
}

/// The interpolating polynomials of the lowest rule and of the rule that its
/// error is judged against, through samples that all equal `c`, lie no
/// distance apart.
pub proof fn lemma_constant_interpolants(v: Seq<i64>, c: i64)
    requires
        v.len() == 5,
        forall|p: int| 0 <= p < v.len() ==> v[p] == c,
    ensures
        interpolant_distance(4, v) == 0,
{
    lemma_constant_coefficients(v, c, 0);
    lemma_constant_coefficients(v, c, 1);
    lemma_constant_coefficients(v, c, 2);
    lemma_constant_coefficients(v, c, 3);
    lemma_constant_coefficients(v, c, 4);
    reveal_with_fuel(gap_squares, 6);
    assert(gap_squares(4, v, 5) == 0);
    assert(is_integer_root(0, 0));
    lemma_integer_root_unique(0, 0, integer_root(0));
}

/// A rule reports nothing of an interval without width: no integral and no
/// error.
pub proof fn lemma_empty_range_estimate(level: int, a: i64, v: Seq<i64>)
    ensures
        curtis_estimate_of(level, a, a, v) == (CurtisEstimate { result: 0, abserr: 0 }),
{
    let d = degree_of(level);
    let q = truncated_quotient(curtis_sum(d, v, (d + 1) as nat), 0x200_0000_0000_0000);
    assert(q * 0 == 0) by (nonlinear_arith);
    assert(interpolant_distance(d, v) * 0 == 0) by (nonlinear_arith);
}

/// What the lowest rule reports of `[a, b]` for an integrand that is constantly
/// `c`: the product of `c` and the width, with the error at the floor.
pub open spec fn constant_curtis_estimate(c: i64, a: i64, b: i64) -> CurtisEstimate {
    CurtisEstimate {
        result: clamp_to_i64(truncated_quotient(c * width_of(a, b), ONE as int)) as i64,
        abserr: error_floor_of(
            magnitude_of(clamp_to_i64(truncated_quotient(c * width_of(a, b), ONE as int))),
        ) as u64,
    }
}

/// The lowest rule applied to samples that all equal `c` reports the constant
/// estimate: its interpolating polynomial is that of the rule its error is
/// judged against, so nothing but the floor is left of the error.
pub proof fn lemma_constant_curtis_samples(a: i64, b: i64, v: Seq<i64>, c: i64)
    requires
        a <= b,
        v.len() == 5,
        forall|p: int| 0 <= p < v.len() ==> v[p] == c,
    ensures
        curtis_estimate_of(0, a, b, v) == constant_curtis_estimate(c, a, b),
{
    lemma_lowest_weights_sum_to_two();
    lemma_constant_curtis_sums(4, v, c, 5);
    lemma_constant_interpolants(v, c);
    let upper = curtis_sum(4, v, 5);
    assert(upper == c * 0x200_0000_0000_0000);
    assert(truncated_quotient(upper, 0x200_0000_0000_0000) == c);
    assert(0 * (b - a) / (ONE as int) == 0);
}

/// A doubly adaptive integration of a constant integrand ends after the first
/// estimate. Where the integrand returns `c` everywhere in `[lo, hi]` and the
/// tolerances are valid, an integration that settled at once (as `cquad`
/// promises to) has succeeded with five evaluations and exactly one interval,
/// the whole range, whose estimate is the product of `c` and the width of the
/// range and whose error is the floor.
pub proof fn lemma_constant_integrand_cquad<F: Fn(i64) -> i64>(
    model: CquadModel,
    f: &F,
    lo: i64,
    hi: i64,
    epsabs: i64,
    epsrel: i64,
    c: i64,
    status: Value,
    evaluations: usize,
)
    requires
        lo <= hi,
        constant_on(f, lo, hi, c),
        exists|v: Seq<i64>| #[trigger]
            model.settled_at_once(f, lo, hi, epsabs, epsrel, v, status, evaluations),
        tolerances_valid(epsabs, epsrel),
    ensures
        status is Success,
        evaluations == 5,
        model.set.active.len() == 1,
        model.set.active[0] == (Subinterval {
            a: lo,
            b: hi,
            result: constant_curtis_estimate(c, lo, hi).result,
            error: constant_curtis_estimate(c, lo, hi).abserr,
            level: 0,
        }),
        model.retired_result == 0 && model.retired_error == 0,
{
    let v = choose|v: Seq<i64>| #[trigger]
        model.settled_at_once(f, lo, hi, epsabs, epsrel, v, status, evaluations);
    assert forall|p: int| 0 <= p < v.len() implies v[p] == c by {
        lemma_curtis_inside(4, lo, hi, p);
        assert(call_ensures(*f, (curtis_abscissa(4, lo, hi, p) as i64,), v[p]));
    }
    lemma_constant_curtis_samples(lo, hi, v, c);
    lemma_floor_within_tolerance(epsabs, epsrel, constant_curtis_estimate(c, lo, hi).result);
}

/// What a doubly adaptive integration from `a` to `b` promises of its result
/// `r`, with `model` the content of the workspace it leaves behind.
///
/// The estimates are those of the workspace, the sign of the integral turned
/// when `b < a`. The status is `Success` exactly when the error estimate is
/// within the tolerance for the estimate; else round-off limits the
/// integration, and then no interval is left or the error of the intervals that
/// have left exceeds the tolerance by itself. Every range takes five
/// evaluations at least; an empty range takes those five and succeeds.
pub open spec fn cquad_outcome(
    model: CquadModel,
    a: i64,
    b: i64,
    epsabs: i64,
    epsrel: i64,
    r: (Value, i64, u64, usize),
) -> bool {
    &&& model.set.active.len() <= model.set.capacity
    &&& (a != b ==> all_fit(model.set.active, lower_of(a, b), upper_of(a, b)))
    &&& r.1 == oriented(a, b, model.result())
    &&& r.2 == model.error()
    &&& (r.0 is Success || r.0 is RoundoffLimited)
    &&& (r.0 is Success <==> r.2 <= tolerance_of(epsabs, epsrel, model.result() as i64))
    &&& (r.0 is RoundoffLimited ==> model.set.active.len() == 0 || clamp_to_u64(
        model.retired_error,
    ) > tolerance_of(epsabs, epsrel, model.result() as i64))
    &&& (a == b ==> r.0 is Success && r.3 == 5 && model.set.active.len() == 1)
    &&& r.3 >= 5
}

/// The workspace of the doubly adaptive integration.
pub struct CquadWorkspace {
    ws: IntegrationWorkspace,
    retired_result: i128,
    retired_error: u128,
}

impl View for CquadWorkspace {
    type V = CquadModel;

    closed spec fn view(&self) -> CquadModel {
        CquadModel {
            set: self.ws@,
            retired_result: self.retired_result as int,
            retired_error: self.retired_error as int,
        }
    }
}

/// The least number of intervals that a workspace must hold.
pub const LEAST_CAPACITY: usize = 3;

impl CquadWorkspace {
    /// The invariant of the workspace.
    pub closed spec fn wf(&self) -> bool {
        self.ws.wf() && self.ws@.capacity >= LEAST_CAPACITY
    }

    /// The working set of a well-formed workspace is well formed and can hold at
    /// least three intervals, and what has left it has no negative error.
    pub proof fn lemma_view_wf(&self)
        requires
            self.wf(),
        ensures
            self@.set.wf(),
            self@.set.capacity >= LEAST_CAPACITY,
            self@.retired_error >= 0,
    {
        self.ws.lemma_view_wf();
    }

    /// A workspace for `n` intervals, or `None` when `n` is less than three or
    /// the memory for `n` intervals cannot be had: what `over` makes of the
    /// working set that could be had.
    pub fn new(n: usize) -> (r: Option<CquadWorkspace>)
        ensures
            n < LEAST_CAPACITY ==> r is None,
            r matches Some(w) ==> w.wf() && w@.set.capacity == n && w@.set.active.len() == 0
                && w@.retired_result == 0 && w@.retired_error == 0,
    {
        if n < LEAST_CAPACITY {
            return None;
        }
        match IntegrationWorkspace::new(n) {
            Some(ws) => Self::over(ws),
            None => None,
        }
    }

    /// The workspace over the working set `ws`, from which nothing has left
    /// yet, or `None` when `ws` cannot hold three intervals.
    pub fn over(ws: IntegrationWorkspace) -> (r: Option<CquadWorkspace>)
        requires
            ws.wf(),
        ensures
            r is Some <==> ws@.capacity >= LEAST_CAPACITY,
            r matches Some(w) ==> w.wf() && w@.set == ws@ && w@.retired_result == 0
                && w@.retired_error == 0,
    {
        if ws.limit() < LEAST_CAPACITY {
            return None;
        }
        Some(CquadWorkspace { ws, retired_result: 0, retired_error: 0 })
    }

    /// The number of intervals the workspace can hold.
    pub fn limit(&self) -> (r: usize)
        ensures
            r == self@.set.capacity,
    {
        self.ws.limit()
    }

    /// The number of active intervals.
    pub fn size(&self) -> (r: usize)
        ensures
            r == self@.set.active.len(),
    {
        self.ws.size()
    }

    /// The `k`-th active interval, by ascending error estimate.
    pub fn interval(&self, k: usize) -> (r: Subinterval)
        requires
            k < self@.set.active.len(),
        ensures
            r == self@.set.active[k as int],
    {
        self.ws.interval(k)
    }

    /// The sums of the integral and error estimates of the intervals that have
    /// left the workspace.
    pub fn retired(&self) -> (r: (i128, u128))
        ensures
            r.0 == self@.retired_result,
            r.1 == self@.retired_error,
    {
        (self.retired_result, self.retired_error)
    }

    /// The estimates that the workspace stands for.
    pub fn estimates(&self) -> (r: (i64, u64))
        requires
            self.wf(),
        ensures
            r.0 == self@.result(),
            r.1 == self@.error(),
    {
        (
            saturate(add_wide(self.ws.total_result(), self.retired_result)),
            saturate_unsigned(add_wide_unsigned(self.ws.total_error(), self.retired_error)),
        )
    }

    /// Adds the estimates of an interval that has left the working set to the
    /// retired sums.
    fn retire(&mut self, out: Subinterval)
        requires
            old(self).wf(),
        ensures
            final(self).wf(),
            final(self)@ == (CquadModel {
                set: old(self)@.set,
                retired_result: wide_sum(old(self)@.retired_result, out.result as int),
                retired_error: wide_sum_unsigned(old(self)@.retired_error, out.error as int),
            }),
    {
        self.retired_result = add_wide(self.retired_result, out.result as i128);
        self.retired_error = add_wide_unsigned(self.retired_error, out.error as u128);
    }

    /// Raises the interval `worst`, which has been taken out of the working set,
    /// to the next level, from the values `lower` that its estimate was made
    /// from, and puts it back in its place.
    fn promote<F: Fn(i64) -> i64>(
        &mut self,
        f: &F,
        store: &mut Vec<Vec<i64>>,
        lo: i64,
        hi: i64,
        worst: Subinterval,
        lower: Vec<i64>,
    ) -> (r: Ghost<CurtisEstimate>)
        requires
            old(self).wf(),
            old(self).ws@.active.len() < old(self).ws@.capacity,
            all_fit(old(self).ws@.active, lo, hi),
            aligned(f, old(self).ws@.active, old(store)@),
            fits(worst, lo, hi),
            worst.level < HIGHEST_LEVEL,
            curtis_sampled(f, worst.level as int, worst.a, worst.b, lower@),
            forall|x: i64| lo <= x <= hi ==> call_requires(*f, (x,)),
        ensures
            final(self).wf(),
            all_fit(final(self).ws@.active, lo, hi),
            aligned(f, final(self).ws@.active, final(store)@),
            effort(final(self).ws@.active) == effort(old(self).ws@.active) + effort_of(worst) - 1,
            curtis_estimate_from(f, worst.level + 1, worst.a, worst.b, r@),
            final(self)@ == (CquadModel {
                set: old(self)@.set.entered(
                    estimated(worst.a, worst.b, (worst.level + 1) as usize, r@),
                ),
                ..old(self)@
            }),
    {
        let ghost rest = self.ws@.active;
        let (e, values) = raise(f, worst.a, worst.b, worst.level, &lower);
        let promoted = Subinterval {
            a: worst.a,
            b: worst.b,
            result: e.result,
            error: e.abserr,
            level: worst.level + 1,
        };
        proof {
            let p = rank_of(rest, promoted.error);
            self.ws.lemma_view_wf();
            lemma_rank_parts(rest, promoted.error);
            lemma_effort_insert(rest, p, promoted, lo, hi);
            lemma_aligned_insert(f, rest, store@, p, promoted, values);
            assert(curtis_sampled(f, worst.level + 1, worst.a, worst.b, values@));
        }
        let (p, _) = self.ws.enter(promoted);
        store.insert(p, values);
        Ghost(e)
    }

    /// Puts an interval with fresh estimates of the lowest rule for `[a, b]` in
    /// its place in the working set. When the working set was full, the
    /// interval that leaves first leaves, and its estimates are added to the
    /// sums over the intervals that have left.
    fn take_in<F: Fn(i64) -> i64>(
        &mut self,
        f: &F,
        store: &mut Vec<Vec<i64>>,
        lo: i64,
        hi: i64,
        a: i64,
        b: i64,
    ) -> (r: Ghost<CurtisEstimate>)
        requires
            old(self).wf(),
            all_fit(old(self).ws@.active, lo, hi),
            aligned(f, old(self).ws@.active, old(store)@),
            lo <= a < b <= hi,
            forall|x: i64| lo <= x <= hi ==> call_requires(*f, (x,)),
        ensures
            final(self).wf(),
            all_fit(final(self).ws@.active, lo, hi),
            aligned(f, final(self).ws@.active, final(store)@),
            effort(final(self).ws@.active) <= effort(old(self).ws@.active) + effort_of(
                estimated(a, b, 0, r@),
            ),
            curtis_estimate_from(f, 0, a, b, r@),
            final(self)@ == (match old(self)@.set.displaced(estimated(a, b, 0, r@)) {
                Some(out) => (CquadModel {
                    set: old(self)@.set.entered(estimated(a, b, 0, r@)),
                    ..old(self)@
                }).with_retired(out),
                None => CquadModel {
                    set: old(self)@.set.entered(estimated(a, b, 0, r@)),
                    ..old(self)@
                },
            }),
    {
        let ghost grown = self.ws@.active;
        let (e, values) = clenshaw_curtis_samples(f, a, b, 0);
        let child = Subinterval { a, b, result: e.result, error: e.abserr, level: 0 };
        proof {
            let p = rank_of(grown, child.error);
            let larger = grown.insert(p, child);
            self.ws.lemma_view_wf();
            lemma_rank_parts(grown, child.error);
            lemma_placed_ascending(grown, child);
            lemma_leaving(larger);
            lemma_effort_insert(grown, p, child, lo, hi);
            lemma_aligned_insert(f, grown, store@, p, child, values);
            lemma_effort_remove(larger, leaving_place(larger), lo, hi);
            lemma_aligned_remove(f, larger, store@.insert(p, values), leaving_place(larger));
            assert(fits(larger[leaving_place(larger)], lo, hi));
            assert(curtis_sampled(f, 0, a, b, values@));
        }
        let (p, out) = self.ws.enter(child);
        store.insert(p, values);
        match out {
            Some(left) => {
                store.remove(left.0);
                self.retire(left.1);
            },
            None => {},
        }
        Ghost(e)
    }

    /// Processes the interval with the largest error: below the highest level
    /// it is raised to the next level, from the values in `store` that its
    /// estimate was made from; at the highest level it is bisected, or leaves
    /// the working set when it is less than two quanta wide. Returns the number
    /// of evaluations of the integrand.
    fn process<F: Fn(i64) -> i64>(
        &mut self,
        f: &F,
        store: &mut Vec<Vec<i64>>,
        lo: i64,
        hi: i64,
    ) -> (r: (usize, Ghost<Refinement>))
        requires
            old(self).wf(),
            old(self).ws@.active.len() >= 1,
            all_fit(old(self).ws@.active, lo, hi),
            aligned(f, old(self).ws@.active, old(store)@),
            forall|x: i64| lo <= x <= hi ==> call_requires(*f, (x,)),
        ensures
            final(self).wf(),
            final(self).ws@.capacity == old(self).ws@.capacity,
            all_fit(final(self).ws@.active, lo, hi),
            aligned(f, final(self).ws@.active, final(store)@),
            effort(final(self).ws@.active) < effort(old(self).ws@.active),
            r.0 == old(self)@.cost(),
            old(self)@.measured(f, r.1@),
            final(self)@ == old(self)@.refined(r.1@),
    {
        let ghost before = self.ws@.active;
        let ghost kept = store@;
        let last = store.len() - 1;
        proof {
            self.ws.lemma_view_wf();
            assert(fits(before[last as int], lo, hi));
            assert(curtis_estimated(f, before[last as int], kept[last as int]@));
            assert(before.drop_last() =~= before.remove(last as int));
            lemma_effort_remove(before, last as int, lo, hi);
            lemma_aligned_remove(f, before, kept, last as int);
        }
        let worst = self.ws.extract_worst();
        let lower = store.remove(last);
        if worst.level < HIGHEST_LEVEL {
            let e = self.promote(f, store, lo, hi, worst, lower);
            (degree(worst.level + 1) / 2, Ghost(Refinement { first: e@, second: e@ }))
        } else if (worst.b as i128) - (worst.a as i128) < 2 {
            self.retire(worst);
            (
                0,
                Ghost(
                    Refinement {
                        first: CurtisEstimate { result: 0, abserr: 0 },
                        second: CurtisEstimate { result: 0, abserr: 0 },
                    },
                ),
            )
        } else {
            let mid = midpoint(worst.a, worst.b);
            let left = self.take_in(f, store, lo, hi, worst.a, mid);
            let right = self.take_in(f, store, lo, hi, mid, worst.b);
            (10, Ghost(Refinement { first: left@, second: right@ }))
        }
    }

    /// Integrates `f` from `a` to `b` until the error estimate is within the
    /// larger of `epsabs` and `epsrel` times the magnitude of the estimate.
    ///
    /// Returns the status, the estimate of the integral, the estimate of its
    /// absolute error and the number of evaluations of the integrand. The
    /// estimates are the sums over the active intervals and over those that
    /// have left the workspace. The interval with the largest error is raised
    /// to the next level, for which the values of the integrand that its
    /// estimate was made from are used again; at the highest level it is
    /// bisected. An interval of the highest level that is less
    /// than two quanta wide cannot be bisected and leaves too. Round-off limits
    /// the integration when the tolerance is not met and either no interval is
    /// left or the error of the intervals that have left exceeds the tolerance
    /// by itself. The integrand is called inside the range only.
    pub fn cquad<F: Fn(i64) -> i64>(
        &mut self,
        f: F,
        a: i64,
        b: i64,
        epsabs: i64,
        epsrel: i64,
    ) -> (r: (Value, i64, u64, usize))
        requires
            old(self).wf(),
            forall|x: i64| lower_of(a, b) <= x <= upper_of(a, b) ==> call_requires(f, (x,)),
        ensures
            final(self).wf(),
            r.0 is BadArgument <==> !tolerances_valid(epsabs, epsrel),
            r.0 is BadArgument ==> r.1 == 0 && r.2 == 0 && r.3 == 0 && final(self)@ == (CquadModel {
                set: old(self)@.set.cleared(),
                retired_result: 0,
                retired_error: 0,
            }),
            !(r.0 is BadArgument) ==> final(self)@.set.capacity == old(self)@.set.capacity
                && cquad_outcome(final(self)@, a, b, epsabs, epsrel, r),
            !(r.0 is BadArgument) ==> all_curtis_estimated(&f, final(self)@.set.active),
            !(r.0 is BadArgument) ==> exists|first: CurtisEstimate, steps: Seq<Refinement>| #[trigger]
                cquad_ran(&f, a, b, epsabs, epsrel, old(self)@, first, steps, final(self)@, r),
            !(r.0 is BadArgument) ==> forall|c: i64| #[trigger]
                constant_on(&f, lower_of(a, b), upper_of(a, b), c) ==> r.0 is Success && r.3 == 5
                    && final(self)@.set.active.len() == 1 && final(self)@.set.active[0]
                    == estimated(
                    lower_of(a, b),
                    upper_of(a, b),
                    0,
                    constant_curtis_estimate(c, lower_of(a, b), upper_of(a, b)),
                ),
            !(r.0 is BadArgument) ==> exists|v: Seq<i64>| #[trigger]
                final(self)@.settled_at_once(
                    &f,
                    lower_of(a, b),
                    upper_of(a, b),
                    epsabs,
                    epsrel,
                    v,
                    r.0,
                    r.3,
                ),
    {
        proof {
            self.ws.lemma_view_wf();
        }
        self.ws.clear();
        self.retired_result = 0;
        self.retired_error = 0;
        if !check_tolerances(epsabs, epsrel) {
            return (Value::BadArgument, 0, 0, 0);
        }
        let lo = if a <= b {
            a
        } else {
            b
        };
        let hi = if a <= b {
            b
        } else {
            a
        };
        if lo == hi {
            let (first, samples) = clenshaw_curtis_samples(&f, lo, hi, 0);
            let ghost v0 = samples@;
            let whole = Subinterval {
                a: lo,
                b: hi,
                result: first.result,
                error: first.abserr,
                level: 0,
            };
            let mut store: Vec<Vec<i64>> = Vec::new();
            proof {
                self.ws.lemma_view_wf();
                lemma_single(whole);
                lemma_aligned_insert(&f, self.ws@.active, store@, 0, whole, samples);
                lemma_empty_range_estimate(0, lo, v0);
            }
            self.ws.insert(whole);
            store.insert(0, samples);
            let ghost start = CquadCourse { model: self@, evaluations: 5 };
            let ghost steps = Seq::<Refinement>::empty();
            proof {
                lemma_cquad_followed(start, steps, arbitrary());
                assert(whole == estimated(lo, hi, 0, first));
                self.ws.lemma_view_wf();
                self.ws.lemma_running_totals();
                lemma_aligned_estimated(&f, self.ws@.active, store@);
                assert(self.ws@.active =~= seq![whole]);
            }
            let (result, abserr) = self.estimates();
            let signed = if a <= b {
                result
            } else {
                negate(result)
            };
            proof {
                assert(result == 0 && abserr == 0);
                assert(self@.settled_at_once(&f, lo, hi, epsabs, epsrel, v0, Value::Success, 5));
                assert forall|c: i64| #[trigger] constant_on(&f, lo, hi, c) implies Value::Success is Success
                    && 5usize == 5 && self@.set.active.len() == 1 && self@.set.active[0] == estimated(
                    lo,
                    hi,
                    0,
                    constant_curtis_estimate(c, lo, hi),
                ) by {
                    lemma_constant_integrand_cquad(self@, &f, lo, hi, epsabs, epsrel, c, Value::Success, 5usize);
                }
                assert(cquad_outcome(
                    self@,
                    a,
                    b,
                    epsabs,
                    epsrel,
                    (Value::Success, signed, abserr, 5usize),
                ));
                assert(cquad_ran(
                    &f,
                    a,
                    b,
                    epsabs,
                    epsrel,
                    old(self)@,
                    first,
                    steps,
                    self@,
                    (Value::Success, signed, abserr, 5usize),
                ));
            }
            return (Value::Success, signed, abserr, 5);
        }
        let (first, samples) = clenshaw_curtis_samples(&f, lo, hi, 0);
        let ghost v0 = samples@;
        let whole = Subinterval { a: lo, b: hi, result: first.result, error: first.abserr, level: 0 };
        let mut store: Vec<Vec<i64>> = Vec::new();
        proof {
            self.ws.lemma_view_wf();
            lemma_effort_insert(self.ws@.active, rank_of(self.ws@.active, whole.error), whole, lo, hi);
            lemma_single(whole);
            lemma_aligned_insert(&f, self.ws@.active, store@, 0, whole, samples);
        }
        self.ws.insert(whole);
        store.insert(0, samples);
        let mut nevals: usize = 5;
        let ghost start = CquadCourse { model: self@, evaluations: 5 };
        let ghost steps = Seq::<Refinement>::empty();
        proof {
            lemma_cquad_followed(start, steps, arbitrary());
            assert(whole == estimated(lo, hi, 0, first));
        }
        loop
            invariant
                start.model == (CquadModel {
                    set: old(self)@.set.cleared().entered(estimated(lo, hi, 0, first)),
                    retired_result: 0,
                    retired_error: 0,
                }),
                start.evaluations == 5,
                curtis_estimate_from(&f, 0, lo, hi, first),
                cquad_legitimate(&f, epsabs, epsrel, start, steps),
                start.followed(steps) == (CquadCourse { model: self@, evaluations: nevals }),
                self.ws.wf(),
                self.ws@.capacity == old(self)@.set.capacity,
                self.ws@.capacity >= LEAST_CAPACITY,
                lo == lower_of(a, b),
                hi == upper_of(a, b),
                lo < hi,
                all_fit(self.ws@.active, lo, hi),
                aligned(&f, self.ws@.active, store@),
                tolerances_valid(epsabs, epsrel),
                nevals >= 5,
                forall|x: i64| lo <= x <= hi ==> call_requires(f, (x,)),
                curtis_sampled(&f, 0, lo, hi, v0),
                whole == first_interval(lo, hi, v0),
                (nevals == 5 && self.ws@.active =~= seq![whole] && self.retired_result == 0
                    && self.retired_error == 0) || whole.error > tolerance_of(
                    epsabs,
                    epsrel,
                    whole.result,
                ),
            decreases effort(self.ws@.active),
        {
            proof {
                self.ws.lemma_view_wf();
                self.ws.lemma_running_totals();
                lemma_effort_positive(self.ws@.active, lo, hi);
                lemma_single(whole);
                lemma_aligned_estimated(&f, self.ws@.active, store@);
            }
            let (result, abserr) = self.estimates();
            let signed = if a <= b {
                result
            } else {
                negate(result)
            };
            let allowed = tolerance(epsabs, epsrel, result);
            if (abserr as u128) <= allowed {
                proof {
                    assert(self@.settled_at_once(&f, lo, hi, epsabs, epsrel, v0, Value::Success, nevals));
                    assert forall|c: i64| #[trigger] constant_on(&f, lo, hi, c) implies Value::Success is Success
                        && nevals == 5 && self@.set.active.len() == 1 && self@.set.active[0] == estimated(
                        lo,
                        hi,
                        0,
                        constant_curtis_estimate(c, lo, hi),
                    ) by {
                        lemma_constant_integrand_cquad(self@, &f, lo, hi, epsabs, epsrel, c, Value::Success, nevals);
                    }
                    assert(cquad_outcome(
                        self@,
                        a,
                        b,
                        epsabs,
                        epsrel,
                        (Value::Success, signed, abserr, nevals),
                    ));
                    assert(cquad_ran(
                        &f,
                        a,
                        b,
                        epsabs,
                        epsrel,
                        old(self)@,
                        first,
                        steps,
                        self@,
                        (Value::Success, signed, abserr, nevals),
                    ));
                }
                return (Value::Success, signed, abserr, nevals);
            }
            if self.ws.size() == 0 || (saturate_unsigned(self.retired_error) as u128) > allowed {
                proof {
                    assert(self@.settled_at_once(
                        &f,
                        lo,
                        hi,
                        epsabs,
                        epsrel,
                        v0,
                        Value::RoundoffLimited,
                        nevals,
                    ));
                    assert forall|c: i64| #[trigger] constant_on(&f, lo, hi, c) implies Value::RoundoffLimited is Success
                        && nevals == 5 && self@.set.active.len() == 1 && self@.set.active[0] == estimated(
                        lo,
                        hi,
                        0,
                        constant_curtis_estimate(c, lo, hi),
                    ) by {
                        lemma_constant_integrand_cquad(self@, &f, lo, hi, epsabs, epsrel, c, Value::RoundoffLimited, nevals);
                    }
                    assert(cquad_outcome(
                        self@,
                        a,
                        b,
                        epsabs,
                        epsrel,
                        (Value::RoundoffLimited, signed, abserr, nevals),
                    ));
                    assert(cquad_ran(
                        &f,
                        a,
                        b,
                        epsabs,
                        epsrel,
                        old(self)@,
                        first,
                        steps,
                        self@,
                        (Value::RoundoffLimited, signed, abserr, nevals),
                    ));
                }
                return (Value::RoundoffLimited, signed, abserr, nevals);
            }
            let ghost here = CquadCourse { model: self@, evaluations: nevals };
            let (spent, step) = self.process(&f, &mut store, lo, hi);
            proof {
                assert(here.model.goes_on(epsabs, epsrel));
                lemma_cquad_course_extended(&f, epsabs, epsrel, start, steps, step@);
                lemma_cquad_followed(start, steps, step@);
                steps = steps.push(step@);
            }
            nevals = nevals.saturating_add(spent);
            proof {
                lemma_effort_positive(self.ws@.active, lo, hi);
            }
        }
    }
}

} // verus!
