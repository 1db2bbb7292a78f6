//! Integration against weight functions: the Cauchy principal value, weights
//! with algebraic-logarithmic singularities at the ends of the range, and
//! oscillatory weights.
use vstd::prelude::*;
use crate::course::{Bisection, lemma_course_weakened};
use crate::driver::{serve, served};
use crate::adaptive::{
    refused,
    accelerated_outcome,
    all_estimated,
    ascending_points,
    estimates,
    integrated_parts,
    lower_of,
    oriented,
    oriented_outcome,
    rule_estimated,
    Scheme,
    upper_of,
};
use crate::elementary::{
    cosine,
    cosine_of,
    logarithm,
    logarithm_of,
    power,
    power_of,
    sine,
    sine_of,
};
use crate::fixedpoint::{clamp_to_i64, negate, ONE, product, product_of, saturate};
use crate::rule::{abscissa, estimate_of, RuleEstimate, sampled_through};
use crate::rule_tables::GaussKronrodRule;
use crate::status::{tolerances_valid, Value};
use crate::transform::Mapping;
use crate::workspace::{all_within, IntegrationWorkspace, partitions, Subinterval};

verus! {

/// The range of the distance `s` from the singular point `c` over which a
/// principal value is integrated, and the distance at which the range is broken
/// before the bisection starts.
///
/// Where `c` lies inside the range of integration, the two sides of `c` are
/// folded onto each other: the distance runs from zero to the farther end, and
/// up to the nearer end both sides contribute. No interval of distances then
/// has the singular point inside, and no bisection can fall on it.
#[derive(Clone, Copy, Debug, PartialEq, Eq, Structural)]
pub struct CauchyRange {
    /// Least distance.
    pub start: i64,
    /// Distance of the nearer end of the range of integration.
    pub near: i64,
    /// Largest distance.
    pub end: i64,
}

/// The range of distances for the principal value over `[lo, hi]` with the
/// singular point `c`: none when `c` is an end of the range, or when a distance
/// exceeds the largest value.
pub open spec fn cauchy_range_of(lo: i64, hi: i64, c: i64) -> Option<CauchyRange> {
    if c == lo || c == hi {
        None
    } else if c < lo {
        if hi - c > i64::MAX {
            None
        } else {
            Some(CauchyRange { start: (lo - c) as i64, near: (lo - c) as i64, end: (hi - c) as i64 })
        }
    } else if c > hi {
        if c - lo > i64::MAX {
            None
        } else {
            Some(CauchyRange { start: (c - hi) as i64, near: (c - hi) as i64, end: (c - lo) as i64 })
        }
    } else if c - lo > i64::MAX || hi - c > i64::MAX {
        None
    } else if c - lo <= hi - c {
        Some(CauchyRange { start: 0, near: (c - lo) as i64, end: (hi - c) as i64 })
    } else {
        Some(CauchyRange { start: 0, near: (hi - c) as i64, end: (c - lo) as i64 })
    }
}

impl CauchyRange {
    /// The ends of the range and, where it lies strictly between them, the
    /// break point.
    pub open spec fn points(self) -> Seq<i64> {
        if self.start < self.near < self.end {
            seq![self.start, self.near, self.end]
        } else {
            seq![self.start, self.end]
        }
    }
}

/// The scheme for the principal value over `[lo, hi]` with the singular point
/// `c`: the 15-point rule on the folded integrand, without extrapolation.
pub open spec fn cauchy_scheme(lo: i64, hi: i64, c: i64) -> Scheme {
    Scheme {
        rule: GaussKronrodRule::Gauss15,
        map: Mapping::Cauchy { lo, hi, c },
        extrapolate: false,
        watch: false,
        depth: None,
    }
}

/// The scheme for weights with singularities at the ends: the 15-point rule
/// with extrapolation.
pub open spec fn endpoint_scheme() -> Scheme {
    Scheme {
        rule: GaussKronrodRule::Gauss15,
        map: Mapping::Identity,
        extrapolate: true,
        watch: false,
        depth: None,
    }
}

/// The scheme for oscillatory weights whose table holds `levels` levels: the
/// 15-point rule with extrapolation, bisecting no interval of that level.
pub open spec fn oscillatory_scheme(levels: usize) -> Scheme {
    Scheme {
        rule: GaussKronrodRule::Gauss15,
        map: Mapping::Identity,
        extrapolate: true,
        watch: false,
        depth: Some(levels),
    }
}

/// The range of distances for the principal value over `[lo, hi]` with the
/// singular point `c`.
pub fn cauchy_range(lo: i64, hi: i64, c: i64) -> (r: Option<CauchyRange>)
    requires
        lo <= hi,
    ensures
        r == cauchy_range_of(lo, hi, c),
        r matches Some(range) ==> 0 <= range.start <= range.near <= range.end,
{
    let below: i128 = (c as i128) - (lo as i128);
    let above: i128 = (hi as i128) - (c as i128);
    if below == 0 || above == 0 {
        None
    } else if below < 0 {
        if above > i64::MAX as i128 {
            None
        } else {
            Some(CauchyRange { start: (-below) as i64, near: (-below) as i64, end: above as i64 })
        }
    } else if above < 0 {
        if below > i64::MAX as i128 {
            None
        } else {
            Some(CauchyRange { start: (-above) as i64, near: (-above) as i64, end: below as i64 })
        }
    } else if below > i64::MAX as i128 || above > i64::MAX as i128 {
        None
    } else if below <= above {
        Some(CauchyRange { start: 0, near: below as i64, end: above as i64 })
    } else {
        Some(CauchyRange { start: 0, near: above as i64, end: below as i64 })
    }
}

impl IntegrationWorkspace {
    /// The Cauchy principal value of the integral of `f(x) / (x - c)` from `a`
    /// to `b`.
    ///
    /// The integral is taken over the distance from `c` (see `CauchyRange`), by
    /// adaptive bisection with the 15-point rule on the folded integrand (see
    /// `Mapping::Cauchy`). The arguments are refused
    /// when `c` is an end of the range, when a distance from `c` to an end
    /// exceeds the largest value, or when the range starts with more parts than
    /// the workspace can hold; otherwise as in `qag`. A limit below the number
    /// of parts stands for that number. The integrand is called inside the
    /// range only.
    pub fn qawc<F: Fn(i64) -> i64>(
        &mut self,
        f: F,
        a: i64,
        b: i64,
        c: i64,
        epsabs: i64,
        epsrel: i64,
        limit: usize,
    ) -> (r: (Value, i64, u64))
        requires
            old(self).wf(),
            forall|x: i64| lower_of(a, b) <= x <= upper_of(a, b) ==> call_requires(f, (x,)),
        ensures
            final(self).wf(),
            r.0 is BadArgument <==> !(tolerances_valid(epsabs, epsrel) && limit <= old(
                self,
            )@.capacity && cauchy_range_of(lower_of(a, b), upper_of(a, b), c) is Some
                && cauchy_range_of(lower_of(a, b), upper_of(a, b), c).unwrap().points().len() <= old(self)@.capacity + 1),
            r.0 is BadArgument ==> r.1 == 0 && r.2 == 0 && final(self)@ == old(self)@.cleared(),
            !(r.0 is BadArgument) ==> {
                &&& final(self)@.capacity == old(self)@.capacity
                &&& 1 <= final(self)@.active.len() <= served(limit, cauchy_range_of(lower_of(a, b), upper_of(a, b), c).unwrap().points().len() - 1)
                &&& all_within(
                    final(self)@.active,
                    cauchy_range_of(lower_of(a, b), upper_of(a, b), c).unwrap().start,
                    cauchy_range_of(lower_of(a, b), upper_of(a, b), c).unwrap().end,
                )
                &&& partitions(
                    final(self)@.active,
                    cauchy_range_of(lower_of(a, b), upper_of(a, b), c).unwrap().start,
                    cauchy_range_of(lower_of(a, b), upper_of(a, b), c).unwrap().end,
                )
                &&& all_estimated(
                    &f,
                    Mapping::Cauchy { lo: lower_of(a, b), hi: upper_of(a, b), c },
                    GaussKronrodRule::Gauss15,
                    final(self)@.active,
                )
                &&& exists|seeds: Seq<RuleEstimate>, steps: Seq<Bisection>, ordered: i64|
                    r.1 == oriented(a, b, ordered as int) && #[trigger] integrated_parts(
                        estimates(
                            &f,
                            Mapping::Cauchy { lo: lower_of(a, b), hi: upper_of(a, b), c },
                            GaussKronrodRule::Gauss15,
                        ),
                        cauchy_scheme(lower_of(a, b), upper_of(a, b), c),
                        cauchy_range_of(lower_of(a, b), upper_of(a, b), c).unwrap().points(),
                        epsabs,
                        epsrel,
                        served(limit, cauchy_range_of(lower_of(a, b), upper_of(a, b), c).unwrap().points().len() - 1),
                        old(self)@,
                        seeds,
                        steps,
                        final(self)@,
                        (r.0, ordered, r.2),
                    )
                &&& exists|ordered: i64| #[trigger]
                    oriented_outcome(
                        a,
                        b,
                        epsabs,
                        epsrel,
                        served(limit, cauchy_range_of(lower_of(a, b), upper_of(a, b), c).unwrap().points().len() - 1),
                        cauchy_scheme(lower_of(a, b), upper_of(a, b), c),
                        final(self)@,
                        r,
                        ordered,
                    )
            },
    {
        let lo = if a <= b {
            a
        } else {
            b
        };
        let hi = if a <= b {
            b
        } else {
            a
        };
        let range = match cauchy_range(lo, hi, c) {
            Some(range) => range,
            None => {
                return refused(self);
            },
        };
        let mut pts: Vec<i64> = Vec::new();
        pts.push(range.start);
        if range.start < range.near && range.near < range.end {
            pts.push(range.near);
        }
        pts.push(range.end);
        assert(pts@ =~= range.points());
        let scheme = Scheme {
            rule: GaussKronrodRule::Gauss15,
            map: Mapping::Cauchy { lo, hi, c },
            extrapolate: false,
            watch: false,
            depth: None,
        };
        let (status, result, abserr) = self.integrate_parts(
            &f,
            pts.as_slice(),
            epsabs,
            epsrel,
            limit,
            scheme,
        );
        if status == Value::BadArgument {
            return refused(self);
        }
        let r = if a <= b {
            (status, result, abserr)
        } else {
            (status, negate(result), abserr)
        };
        proof {
            assert(oriented_outcome(
                a,
                b,
                epsabs,
                epsrel,
                served(limit, pts@.len() - 1),
                scheme,
                self@,
                r,
                result,
            ));
        }
        r
    }
}

/// The two ends of a range, as the points that give its one part.
pub open spec fn ends(a: i64, b: i64) -> Seq<i64> {
    seq![a, b]
}

/// A weight function.
#[derive(Clone, Copy, Debug, PartialEq, Eq, Structural)]
pub enum Weight {
    /// The weight `(x - a)^alpha (b - x)^beta` on `[a, b]`, times the logarithm
    /// of `x - a` and that of `b - x` where the weight has them.
    Algebraic { a: i64, b: i64, alpha: i64, beta: i64, logarithm_left: bool, logarithm_right: bool },
    /// The weight `cos(omega x)`.
    Cosine { omega: i64 },
    /// The weight `sin(omega x)`.
    Sine { omega: i64 },
}

/// How far `to` lies above `from`: zero where it does not.
pub open spec fn distance_of(from: i64, to: i64) -> int {
    if to <= from {
        0
    } else {
        clamp_to_i64(to - from)
    }
}

/// The logarithm of the distance `d` where the weight has it, else one.
pub open spec fn logarithmic_factor_of(present: bool, d: int) -> int {
    if present {
        logarithm_of(d)
    } else {
        ONE as int
    }
}

impl Weight {
    /// The value of the weight at `x`.
    pub open spec fn value_of(self, x: i64) -> int {
        match self {
            Weight::Algebraic { a, b, alpha, beta, logarithm_left, logarithm_right } => product_of(
                product_of(
                    power_of(distance_of(a, x), alpha as int),
                    power_of(distance_of(x, b), beta as int),
                ),
                product_of(
                    logarithmic_factor_of(logarithm_left, distance_of(a, x)),
                    logarithmic_factor_of(logarithm_right, distance_of(x, b)),
                ),
            ),
            Weight::Cosine { omega } => cosine_of(product_of(omega as int, x as int)),
            Weight::Sine { omega } => sine_of(product_of(omega as int, x as int)),
        }
    }

    /// The value of the weight at `x`.
    pub fn at(&self, x: i64) -> (r: i64)
        ensures
            r == self.value_of(x),
    {
        match *self {
            Weight::Algebraic { a, b, alpha, beta, logarithm_left, logarithm_right } => {
                let left = distance(a, x);
                let right = distance(x, b);
                let powers = product(power(left, alpha), power(right, beta));
                let logarithms = product(
                    logarithmic_factor(logarithm_left, left),
                    logarithmic_factor(logarithm_right, right),
                );
                product(powers, logarithms)
            },
            Weight::Cosine { omega } => cosine(product(omega, x)),
            Weight::Sine { omega } => sine(product(omega, x)),
        }
    }
}

/// How far `to` lies above `from`: zero where it does not.
pub fn distance(from: i64, to: i64) -> (r: i64)
    ensures
        r == distance_of(from, to),
        r >= 0,
{
    if to <= from {
        0
    } else {
        saturate((to as i128) - (from as i128))
    }
}

/// The logarithm of the distance `d` where the weight has it, else one.
pub fn logarithmic_factor(present: bool, d: i64) -> (r: i64)
    ensures
        r == logarithmic_factor_of(present, d as int),
{
    if present {
        logarithm(d)
    } else {
        ONE
    }
}

/// The value `y` is the product of a value of the integrand `f` and a value of
/// the weight function `weight` at the point `x`.
pub open spec fn weighted_value<F: Fn(i64) -> i64>(
    f: &F,
    weight: Weight,
    x: i64,
    y: i64,
) -> bool {
    exists|v: i64| call_ensures(*f, (x,), v) && y == product_of(v as int, weight.value_of(x))
}

/// The values `v` are products of the integrand and the weight function at the
/// sample points of the rule on `[a, b]`.
pub open spec fn weighted_samples<F: Fn(i64) -> i64>(
    f: &F,
    weight: Weight,
    rule: GaussKronrodRule,
    a: i64,
    b: i64,
    v: Seq<i64>,
) -> bool {
    &&& v.len() == rule.points()
    &&& forall|k: int|
        0 <= k < v.len() ==> weighted_value(
            f,
            weight,
            abscissa(rule, a, b, k) as i64,
            #[trigger] v[k],
        )
}

/// The estimates of the interval are what the rule gives for its range from
/// products of the integrand and the weight function at its sample points.
pub open spec fn weighted_estimated<F: Fn(i64) -> i64>(
    f: &F,
    weight: Weight,
    rule: GaussKronrodRule,
    x: Subinterval,
) -> bool {
    exists|v: Seq<i64>| #[trigger]
        weighted_samples(f, weight, rule, x.a, x.b, v) && x.result == estimate_of(
            rule,
            x.a,
            x.b,
            v,
        ).result && x.error == estimate_of(rule, x.a, x.b, v).abserr
}

/// The estimate `e` is what the rule gives for `[a, b]` from products of the
/// integrand and the weight function at its sample points.
pub open spec fn weighted_estimate_from<F: Fn(i64) -> i64>(
    f: &F,
    weight: Weight,
    rule: GaussKronrodRule,
    a: i64,
    b: i64,
    e: RuleEstimate,
) -> bool {
    exists|v: Seq<i64>| #[trigger]
        weighted_samples(f, weight, rule, a, b, v) && e == estimate_of(rule, a, b, v)
}

/// The way of telling the estimates that the rule gives for the product of the
/// integrand `f` and the weight function `weight`.
pub open spec fn weighted_estimates<F: Fn(i64) -> i64>(
    f: &F,
    weight: Weight,
    rule: GaussKronrodRule,
) -> spec_fn(i64, i64, RuleEstimate) -> bool {
    |a: i64, b: i64, e: RuleEstimate| weighted_estimate_from(f, weight, rule, a, b, e)
}

/// The estimates of every interval of the sequence are what the rule gives for
/// the product of the integrand and the weight function.
pub open spec fn all_weighted_estimated<F: Fn(i64) -> i64>(
    f: &F,
    weight: Weight,
    rule: GaussKronrodRule,
    s: Seq<Subinterval>,
) -> bool {
    forall|i: int| 0 <= i < s.len() ==> weighted_estimated(f, weight, rule, #[trigger] s[i])
}

/// Integrates the product of `f` and `weight` from `a` to `b` under the scheme.
fn integrate_weighted<F: Fn(i64) -> i64>(
    workspace: &mut IntegrationWorkspace,
    f: &F,
    weight: Weight,
    a: i64,
    b: i64,
    epsabs: i64,
    epsrel: i64,
    limit: usize,
    scheme: Scheme,
) -> (r: (Value, i64, u64))
    requires
        old(workspace).wf(),
        a <= b,
        scheme.map is Identity,
        forall|x: i64| a <= x <= b ==> call_requires(*f, (x,)),
    ensures
        final(workspace).wf(),
        r.0 is BadArgument <==> !(tolerances_valid(epsabs, epsrel) && limit <= old(
            workspace,
        )@.capacity),
        r.0 is BadArgument ==> r.1 == 0 && r.2 == 0 && final(workspace)@ == old(workspace)@.cleared(),
        !(r.0 is BadArgument) ==> {
            &&& final(workspace)@.capacity == old(workspace)@.capacity
            &&& 1 <= final(workspace)@.active.len() <= served(limit, 1)
            &&& all_within(final(workspace)@.active, a, b)
            &&& partitions(final(workspace)@.active, a, b)
            &&& all_weighted_estimated(f, weight, scheme.rule, final(workspace)@.active)
            &&& exists|seeds: Seq<RuleEstimate>, steps: Seq<Bisection>| #[trigger]
                integrated_parts(
                    weighted_estimates(f, weight, scheme.rule),
                    scheme,
                    ends(a, b),
                    epsabs,
                    epsrel,
                    served(limit, 1),
                    old(workspace)@,
                    seeds,
                    steps,
                    final(workspace)@,
                    r,
                )
            &&& accelerated_outcome(epsabs, epsrel, served(limit, 1), scheme, final(workspace)@, r)
        },
{
    proof {
        workspace.lemma_view_wf();
    }
    let limit = serve(limit, 1);
    let g = |x: i64| -> (y: i64)
        requires
            a <= x <= b,
        ensures
            weighted_value(f, weight, x, y),
        { product(f(x), weight.at(x)) };
    let mut pts: Vec<i64> = Vec::new();
    pts.push(a);
    pts.push(b);
    assert(ascending_points(pts@));
    let r = workspace.integrate_parts(&g, pts.as_slice(), epsabs, epsrel, limit, scheme);
    proof {
        if !(r.0 is BadArgument) {
            let s = workspace@.active;
            assert forall|i: int| 0 <= i < s.len() implies weighted_estimated(
                f,
                weight,
                scheme.rule,
                #[trigger] s[i],
            ) by {
                let x = s[i];
                assert(rule_estimated(&g, Mapping::Identity, scheme.rule, x));
                let v = choose|v: Seq<i64>| #[trigger]
                    sampled_through(&g, Mapping::Identity, scheme.rule, x.a, x.b, v) && x.result
                        == estimate_of(scheme.rule, x.a, x.b, v).result && x.error == estimate_of(
                        scheme.rule,
                        x.a,
                        x.b,
                        v,
                    ).abserr;
                assert forall|k: int| 0 <= k < v.len() implies weighted_value(
                    f,
                    weight,
                    abscissa(scheme.rule, x.a, x.b, k) as i64,
                    #[trigger] v[k],
                ) by {
                    assert(Mapping::Identity.relates(
                        &g,
                        abscissa(scheme.rule, x.a, x.b, k) as i64,
                        v[k],
                    ));
                }
                assert(weighted_samples(f, weight, scheme.rule, x.a, x.b, v));
            }
            let rel = estimates(&g, Mapping::Identity, scheme.rule);
            let wider = weighted_estimates(f, weight, scheme.rule);
            assert forall|p: i64, q: i64, e: RuleEstimate| #[trigger] rel(p, q, e) implies wider(
                p,
                q,
                e,
            ) by {
                let v = choose|v: Seq<i64>| #[trigger]
                    sampled_through(&g, Mapping::Identity, scheme.rule, p, q, v) && e
                        == estimate_of(scheme.rule, p, q, v);
                assert forall|k: int| 0 <= k < v.len() implies weighted_value(
                    f,
                    weight,
                    abscissa(scheme.rule, p, q, k) as i64,
                    #[trigger] v[k],
                ) by {
                    assert(Mapping::Identity.relates(
                        &g,
                        abscissa(scheme.rule, p, q, k) as i64,
                        v[k],
                    ));
                }
                assert(weighted_samples(f, weight, scheme.rule, p, q, v));
            }
            assert(pts@ =~= ends(a, b));
            let (seeds, steps) = choose|seeds: Seq<RuleEstimate>, steps: Seq<Bisection>|
                #[trigger] integrated_parts(
                    rel,
                    scheme,
                    pts@,
                    epsabs,
                    epsrel,
                    limit,
                    old(workspace)@,
                    seeds,
                    steps,
                    workspace@,
                    r,
                );
            let start = crate::adaptive::start_of(
                scheme,
                epsabs,
                epsrel,
                limit,
                crate::adaptive::seeded(old(workspace)@, pts@, seeds, (pts@.len() - 1) as nat),
            );
            lemma_course_weakened(rel, wider, scheme, start, steps);
            assert forall|k: int| 0 <= k < seeds.len() implies wider(
                pts@[k],
                pts@[k + 1],
                #[trigger] seeds[k],
            ) by {
                assert(rel(pts@[k], pts@[k + 1], seeds[k]));
            }
            assert(integrated_parts(
                wider,
                scheme,
                ends(a, b),
                epsabs,
                epsrel,
                limit,
                old(workspace)@,
                seeds,
                steps,
                workspace@,
                r,
            ));
        }
    }
    r
}

/// The parameters `alpha`, `beta`, `mu`, `nu` describe a weight
/// `(x - a)^alpha (b - x)^beta log^mu(x - a) log^nu(b - x)`: both powers exceed
/// minus one, and `mu` and `nu` are zero or one.
pub open spec fn qaws_parameters_valid(alpha: i64, beta: i64, mu: i32, nu: i32) -> bool {
    alpha > -ONE && beta > -ONE && (mu == 0 || mu == 1) && (nu == 0 || nu == 1)
}

/// True when the parameters describe a weight with integrable singularities.
pub fn check_qaws_parameters(alpha: i64, beta: i64, mu: i32, nu: i32) -> (r: bool)
    ensures
        r == qaws_parameters_valid(alpha, beta, mu, nu),
{
    alpha > -ONE && beta > -ONE && (mu == 0 || mu == 1) && (nu == 0 || nu == 1)
}

/// The next generation of a table, saturating.
pub open spec fn next_generation(g: u64) -> u64 {
    if g < u64::MAX {
        (g + 1) as u64
    } else {
        g
    }
}

/// The parameters of a weight function with algebraic-logarithmic
/// singularities at the ends of the range of integration,
/// `(x - a)^alpha (b - x)^beta log^mu(x - a) log^nu(b - x)`.
///
/// The parameters change through `set` only, and each change starts a new
/// generation of the table, so that what was computed from the parameters of an
/// older generation can be told to be out of date.
#[derive(Clone, Copy, Debug, PartialEq, Eq, Structural)]
pub struct IntegrationQawsTable {
    alpha: i64,
    beta: i64,
    mu: i32,
    nu: i32,
    generation: u64,
}

/// The mathematical content of a table of an algebraic-logarithmic weight.
pub struct QawsParameters {
    pub alpha: i64,
    pub beta: i64,
    pub mu: i32,
    pub nu: i32,
    pub generation: u64,
}

impl View for IntegrationQawsTable {
    type V = QawsParameters;

    closed spec fn view(&self) -> QawsParameters {
        QawsParameters {
            alpha: self.alpha,
            beta: self.beta,
            mu: self.mu,
            nu: self.nu,
            generation: self.generation,
        }
    }
}

impl QawsParameters {
    /// The weight that the parameters describe on `[a, b]`.
    pub open spec fn weight(self, a: i64, b: i64) -> Weight {
        Weight::Algebraic {
            a,
            b,
            alpha: self.alpha,
            beta: self.beta,
            logarithm_left: self.mu == 1,
            logarithm_right: self.nu == 1,
        }
    }
}

impl IntegrationQawsTable {
    /// The invariant of a table: its parameters are valid.
    pub open spec fn wf(&self) -> bool {
        qaws_parameters_valid(self@.alpha, self@.beta, self@.mu, self@.nu)
    }

    /// A table for the weight with these parameters, or `None` when a power
    /// does not exceed minus one or `mu` or `nu` is neither zero nor one.
    pub fn new(alpha: i64, beta: i64, mu: i32, nu: i32) -> (r: Option<IntegrationQawsTable>)
        ensures
            r is Some <==> qaws_parameters_valid(alpha, beta, mu, nu),
            r matches Some(t) ==> t.wf() && t@ == (QawsParameters {
                alpha,
                beta,
                mu,
                nu,
                generation: 0,
            }),
    {
        if check_qaws_parameters(alpha, beta, mu, nu) {
            Some(IntegrationQawsTable { alpha, beta, mu, nu, generation: 0 })
        } else {
            None
        }
    }

    /// Changes the parameters and starts a new generation. Invalid parameters
    /// are refused and leave the table as it was.
    pub fn set(&mut self, alpha: i64, beta: i64, mu: i32, nu: i32) -> (r: Value)
        requires
            old(self).wf(),
        ensures
            final(self).wf(),
            r == if qaws_parameters_valid(alpha, beta, mu, nu) {
                Value::Success
            } else {
                Value::BadArgument
            },
            qaws_parameters_valid(alpha, beta, mu, nu) ==> final(self)@ == (QawsParameters {
                alpha,
                beta,
                mu,
                nu,
                generation: next_generation(old(self)@.generation),
            }),
            !qaws_parameters_valid(alpha, beta, mu, nu) ==> final(self)@ == old(self)@,
    {
        if check_qaws_parameters(alpha, beta, mu, nu) {
            self.alpha = alpha;
            self.beta = beta;
            self.mu = mu;
            self.nu = nu;
            if self.generation < u64::MAX {
                self.generation = self.generation + 1;
            }
            Value::Success
        } else {
            Value::BadArgument
        }
    }

    /// The power of `x - a`.
    pub fn alpha(&self) -> (r: i64)
        ensures
            r == self@.alpha,
    {
        self.alpha
    }

    /// The power of `b - x`.
    pub fn beta(&self) -> (r: i64)
        ensures
            r == self@.beta,
    {
        self.beta
    }

    /// The power of `log(x - a)`.
    pub fn mu(&self) -> (r: i32)
        ensures
            r == self@.mu,
    {
        self.mu
    }

    /// The power of `log(b - x)`.
    pub fn nu(&self) -> (r: i32)
        ensures
            r == self@.nu,
    {
        self.nu
    }

    /// The number of times the parameters were changed.
    pub fn generation(&self) -> (r: u64)
        ensures
            r == self@.generation,
    {
        self.generation
    }

    /// The weight of the table on `[a, b]`.
    pub fn weight(&self, a: i64, b: i64) -> (w: Weight)
        ensures
            w == self@.weight(a, b),
    {
        Weight::Algebraic {
            a,
            b,
            alpha: self.alpha,
            beta: self.beta,
            logarithm_left: self.mu == 1,
            logarithm_right: self.nu == 1,
        }
    }

    /// Integrates `f` times the weight of the table from `a` to `b`, with the
    /// 15-point rule and extrapolation, which copes with the singularities of
    /// the weight at the ends of the range.
    ///
    /// The arguments are refused when `b` does not exceed `a`; otherwise as in
    /// `qags`. The integrand is called inside the range only.
    pub fn qaws<F: Fn(i64) -> i64>(
        &mut self,
        f: F,
        a: i64,
        b: i64,
        epsabs: i64,
        epsrel: i64,
        limit: usize,
        workspace: &mut IntegrationWorkspace,
    ) -> (r: (Value, i64, u64))
        requires
            old(self).wf(),
            old(workspace).wf(),
            forall|x: i64| a <= x <= b ==> call_requires(f, (x,)),
        ensures
            *final(self) == *old(self),
            final(workspace).wf(),
            r.0 is BadArgument <==> !(tolerances_valid(epsabs, epsrel) && limit <= old(
                workspace,
            )@.capacity && a < b),
            r.0 is BadArgument ==> r.1 == 0 && r.2 == 0 && final(workspace)@ == old(workspace)@.cleared(),
            !(r.0 is BadArgument) ==> {
                &&& final(workspace)@.capacity == old(workspace)@.capacity
                &&& 1 <= final(workspace)@.active.len() <= served(limit, 1)
                &&& all_within(final(workspace)@.active, a, b)
                &&& partitions(final(workspace)@.active, a, b)
                &&& all_weighted_estimated(
                    &f,
                    old(self)@.weight(a, b),
                    GaussKronrodRule::Gauss15,
                    final(workspace)@.active,
                )
                &&& exists|seeds: Seq<RuleEstimate>, steps: Seq<Bisection>| #[trigger]
                    integrated_parts(
                        weighted_estimates(
                            &f,
                            old(self)@.weight(a, b),
                            GaussKronrodRule::Gauss15,
                        ),
                        endpoint_scheme(),
                        ends(a, b),
                        epsabs,
                        epsrel,
                        served(limit, 1),
                        old(workspace)@,
                        seeds,
                        steps,
                        final(workspace)@,
                        r,
                    )
                &&& accelerated_outcome(
                    epsabs,
                    epsrel,
                    served(limit, 1),
                    endpoint_scheme(),
                    final(workspace)@,
                    r,
                )
            },
    {
        proof {
            workspace.lemma_view_wf();
        }
        let limit = serve(limit, 1);
        if a >= b {
            return refused(workspace);
        }
        let scheme = Scheme {
            rule: GaussKronrodRule::Gauss15,
            map: Mapping::Identity,
            extrapolate: true,
            watch: false,
            depth: None,
        };
        let weight = self.weight(a, b);
        integrate_weighted(workspace, &f, weight, a, b, epsabs, epsrel, limit, scheme)
    }
}

/// The two oscillatory weights.
#[derive(Clone, Copy, Debug, PartialEq, Eq, Structural)]
pub enum IntegrationQawo {
    /// The weight `cos(omega x)`.
    Cosine,
    /// The weight `sin(omega x)`.
    Sine,
}

/// The parameters of an oscillatory weight function, `sin(omega x)` or
/// `cos(omega x)` over a range of length `length`, and the number of levels of
/// bisection for which the table serves.
///
/// The parameters change through `set` and `set_length` only, and each change
/// starts a new generation of the table.
#[derive(Clone, Copy, Debug, PartialEq, Eq, Structural)]
pub struct IntegrationQawoTable {
    omega: i64,
    length: i64,
    sine: IntegrationQawo,
    levels: usize,
    generation: u64,
}

/// The mathematical content of a table of an oscillatory weight.
pub struct QawoParameters {
    pub omega: i64,
    pub length: i64,
    pub sine: IntegrationQawo,
    pub levels: usize,
    pub generation: u64,
}

impl View for IntegrationQawoTable {
    type V = QawoParameters;

    closed spec fn view(&self) -> QawoParameters {
        QawoParameters {
            omega: self.omega,
            length: self.length,
            sine: self.sine,
            levels: self.levels,
            generation: self.generation,
        }
    }
}

impl QawoParameters {
    /// The weight that the parameters describe.
    pub open spec fn weight(self) -> Weight {
        match self.sine {
            IntegrationQawo::Cosine => Weight::Cosine { omega: self.omega },
            IntegrationQawo::Sine => Weight::Sine { omega: self.omega },
        }
    }
}

impl IntegrationQawoTable {
    /// The invariant of a table: it has at least one level.
    pub open spec fn wf(&self) -> bool {
        self@.levels >= 1
    }

    /// A table with `n` levels for the weight `sin(omega x)` or `cos(omega x)`
    /// over a range of length `l`, or `None` when `n` is zero.
    pub fn new(omega: i64, l: i64, sine: IntegrationQawo, n: usize) -> (r: Option<
        IntegrationQawoTable,
    >)
        ensures
            r is Some <==> n >= 1,
            r matches Some(t) ==> t.wf() && t@ == (QawoParameters {
                omega,
                length: l,
                sine,
                levels: n,
                generation: 0,
            }),
    {
        if n == 0 {
            None
        } else {
            Some(IntegrationQawoTable { omega, length: l, sine, levels: n, generation: 0 })
        }
    }

    /// Changes the frequency, the length and the kind of the weight, and starts
    /// a new generation.
    pub fn set(&mut self, omega: i64, l: i64, sine: IntegrationQawo) -> (r: Value)
        requires
            old(self).wf(),
        ensures
            final(self).wf(),
            r is Success,
            final(self)@ == (QawoParameters {
                omega,
                length: l,
                sine,
                levels: old(self)@.levels,
                generation: next_generation(old(self)@.generation),
            }),
    {
        self.omega = omega;
        self.length = l;
        self.sine = sine;
        if self.generation < u64::MAX {
            self.generation = self.generation + 1;
        }
        Value::Success
    }

    /// Changes the length of the range. A length that differs from the one the
    /// table has starts a new generation; the same length changes nothing.
    pub fn set_length(&mut self, l: i64) -> (r: Value)
        requires
            old(self).wf(),
        ensures
            final(self).wf(),
            r is Success,
            final(self)@ == (QawoParameters {
                length: l,
                generation: if l == old(self)@.length {
                    old(self)@.generation
                } else {
                    next_generation(old(self)@.generation)
                },
                ..old(self)@
            }),
    {
        if l != self.length {
            self.length = l;
            if self.generation < u64::MAX {
                self.generation = self.generation + 1;
            }
        }
        Value::Success
    }

    /// The frequency of the weight.
    pub fn omega(&self) -> (r: i64)
        ensures
            r == self@.omega,
    {
        self.omega
    }

    /// The length of the range of integration.
    pub fn length(&self) -> (r: i64)
        ensures
            r == self@.length,
    {
        self.length
    }

    /// The kind of the weight.
    pub fn sine(&self) -> (r: IntegrationQawo)
        ensures
            r == self@.sine,
    {
        self.sine
    }

    /// The number of levels of bisection for which the table serves.
    pub fn levels(&self) -> (r: usize)
        ensures
            r == self@.levels,
    {
        self.levels
    }

    /// The number of times the parameters were changed.
    pub fn generation(&self) -> (r: u64)
        ensures
            r == self@.generation,
    {
        self.generation
    }

    /// The weight of the table.
    pub fn weight(&self) -> (w: Weight)
        ensures
            w == self@.weight(),
    {
        match self.sine {
            IntegrationQawo::Cosine => Weight::Cosine { omega: self.omega },
            IntegrationQawo::Sine => Weight::Sine { omega: self.omega },
        }
    }

    /// Integrates `f` times the weight of the table from `a` over the length of
    /// the table, with the 15-point rule and extrapolation.
    ///
    /// An interval whose level has reached the number of levels of the table
    /// is not bisected: the integration then ends with `TableInsufficient`.
    /// The arguments are refused when the length is negative or the range ends
    /// beyond the largest value; otherwise as in `qags`. The integrand is
    /// called inside the range only.
    pub fn qawo<F: Fn(i64) -> i64>(
        &mut self,
        f: F,
        a: i64,
        epsabs: i64,
        epsrel: i64,
        limit: usize,
        workspace: &mut IntegrationWorkspace,
    ) -> (r: (Value, i64, u64))
        requires
            old(self).wf(),
            old(workspace).wf(),
            forall|x: i64| a <= x <= a + old(self)@.length ==> call_requires(f, (x,)),
        ensures
            *final(self) == *old(self),
            final(workspace).wf(),
            r.0 is BadArgument <==> !(tolerances_valid(epsabs, epsrel) && limit <= old(
                workspace,
            )@.capacity && old(self)@.length >= 0 && a + old(self)@.length <= i64::MAX),
            r.0 is BadArgument ==> r.1 == 0 && r.2 == 0 && final(workspace)@ == old(workspace)@.cleared(),
            !(r.0 is BadArgument) ==> {
                &&& final(workspace)@.capacity == old(workspace)@.capacity
                &&& 1 <= final(workspace)@.active.len() <= served(limit, 1)
                &&& all_within(final(workspace)@.active, a, (a + old(self)@.length) as i64)
                &&& partitions(final(workspace)@.active, a, (a + old(self)@.length) as i64)
                &&& all_weighted_estimated(
                    &f,
                    old(self)@.weight(),
                    GaussKronrodRule::Gauss15,
                    final(workspace)@.active,
                )
                &&& exists|seeds: Seq<RuleEstimate>, steps: Seq<Bisection>| #[trigger]
                    integrated_parts(
                        weighted_estimates(&f, old(self)@.weight(), GaussKronrodRule::Gauss15),
                        oscillatory_scheme(old(self)@.levels),
                        ends(a, (a + old(self)@.length) as i64),
                        epsabs,
                        epsrel,
                        served(limit, 1),
                        old(workspace)@,
                        seeds,
                        steps,
                        final(workspace)@,
                        r,
                    )
                &&& accelerated_outcome(
                    epsabs,
                    epsrel,
                    served(limit, 1),
                    oscillatory_scheme(old(self)@.levels),
                    final(workspace)@,
                    r,
                )
            },
    {
        proof {
            workspace.lemma_view_wf();
        }
        let limit = serve(limit, 1);
        let end: i128 = (a as i128) + (self.length as i128);
        if self.length < 0 || end > i64::MAX as i128 {
            return refused(workspace);
        }
        let b = end as i64;
        let scheme = Scheme {
            rule: GaussKronrodRule::Gauss15,
            map: Mapping::Identity,
            extrapolate: true,
            watch: false,
            depth: Some(self.levels),
        };
        let weight = self.weight();
        integrate_weighted(workspace, &f, weight, a, b, epsabs, epsrel, limit, scheme)
    }
}

} // verus!
