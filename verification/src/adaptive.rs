//! The adaptive integration routines that rest on Gauss-Kronrod rules.
//!
//! Every routine seeds a workspace with estimates of the range, or of its
//! parts, and then lets the driver decide: the interval with the largest error
//! is bisected until the tolerance is met or the driver ends the integration
//! for another reason. A scheme says which rule estimates the intervals,
//! through which mapping the integrand is sampled, and whether the sequence of
//! estimates is extrapolated.
use vstd::prelude::*;
use crate::course::{
    accepted,
    Bisection,
    completed,
    Course,
    due,
    first_observation,
    legitimate,
    lemma_course_extended,
    lemma_followed,
};
use crate::driver::{
    serve,
    served,
    Action,
    Driver,
    DriverState,
    left_child,
    reported_error,
    reported_result,
    right_child,
    within_tolerance,
};
use crate::extrapolation::Accelerator;
use crate::fixedpoint::{clamp_to_i64, negate, ONE, saturate, saturate_unsigned};
use crate::rule::{
    abscissa,
    constant_estimate,
    lemma_constant_floor_within_tolerance,
    estimate_of,
    gauss_kronrod_through,
    lemma_abscissa_inside,
    lemma_constant_samples,
    RuleEstimate,
    sampled_through,
};
use crate::rule_tables::GaussKronrodRule;
use crate::status::{tolerance, tolerance_of, tolerances_valid, Value};
use crate::transform::Mapping;
use crate::workspace::{
    all_within,
    IntegrationWorkspace,
    leaving_place,
    lemma_ascending_parts,
    lemma_leaving,
    lemma_partition_bisected,
    lemma_partition_entered,
    lemma_partition_single,
    lemma_placed_ascending,
    lemma_placed_members,
    lemma_single,
    lemma_within_entered,
    lemma_within_kept,
    partitions,
    placed,
    seed,
    Subinterval,
    thinned,
    WorkingSet,
};

verus! {

/// The lower of two bounds.
pub open spec fn lower_of(a: i64, b: i64) -> i64 {
    if a <= b {
        a
    } else {
        b
    }
}

/// The upper of two bounds.
pub open spec fn upper_of(a: i64, b: i64) -> i64 {
    if a <= b {
        b
    } else {
        a
    }
}

/// The estimate of the integral from `a` to `b`, given the estimate `result`
/// of the integral over the ordered range: the sign turns when `b < a`.
pub open spec fn oriented(a: i64, b: i64, result: int) -> int {
    if a <= b {
        result
    } else {
        clamp_to_i64(-result)
    }
}

/// The interval that holds the first estimate of the whole range.
pub open spec fn whole(lo: i64, hi: i64, e: RuleEstimate) -> Subinterval {
    Subinterval { a: lo, b: hi, result: e.result, error: e.abserr, level: 0 }
}

/// The estimates of the interval are what the rule gives for its range from
/// values of the integrand `f`, seen through the mapping `map`, at the sample
/// points of the rule.
pub open spec fn rule_estimated<F: Fn(i64) -> i64>(
    f: &F,
    map: Mapping,
    rule: GaussKronrodRule,
    x: Subinterval,
) -> bool {
    exists|v: Seq<i64>| #[trigger]
        sampled_through(f, map, rule, x.a, x.b, v) && x.result == estimate_of(
            rule,
            x.a,
            x.b,
            v,
        ).result && x.error == estimate_of(rule, x.a, x.b, v).abserr
}

/// The estimates of every interval of the sequence are what the rule gives for
/// the integrand `f`.
pub open spec fn all_estimated<F: Fn(i64) -> i64>(
    f: &F,
    map: Mapping,
    rule: GaussKronrodRule,
    s: Seq<Subinterval>,
) -> bool {
    forall|i: int| 0 <= i < s.len() ==> rule_estimated(f, map, rule, #[trigger] s[i])
}

/// The estimate `e` is what the rule gives for `[a, b]` from values of the
/// integrand `f`, seen through the mapping `map`, at the sample points of the
/// rule.
pub open spec fn estimate_from<F: Fn(i64) -> i64>(
    f: &F,
    map: Mapping,
    rule: GaussKronrodRule,
    a: i64,
    b: i64,
    e: RuleEstimate,
) -> bool {
    exists|v: Seq<i64>| #[trigger]
        sampled_through(f, map, rule, a, b, v) && e == estimate_of(rule, a, b, v)
}

/// The way of telling the estimates that the rule gives for the integrand `f`,
/// seen through the mapping `map`.
pub open spec fn estimates<F: Fn(i64) -> i64>(
    f: &F,
    map: Mapping,
    rule: GaussKronrodRule,
) -> spec_fn(i64, i64, RuleEstimate) -> bool {
    |a: i64, b: i64, e: RuleEstimate| estimate_from(f, map, rule, a, b, e)
}

/// Intervals whose estimates the rule gave keep that property when the worst
/// one is replaced by such intervals, and when such an interval enters.
pub proof fn lemma_estimated_kept<F: Fn(i64) -> i64>(
    f: &F,
    map: Mapping,
    rule: GaussKronrodRule,
    ws: WorkingSet,
    child1: Subinterval,
    child2: Subinterval,
)
    requires
        ws.wf(),
        all_estimated(f, map, rule, ws.active),
        rule_estimated(f, map, rule, child1),
        rule_estimated(f, map, rule, child2),
    ensures
        all_estimated(f, map, rule, ws.entered(child1).active),
        ws.active.len() >= 1 ==> all_estimated(f, map, rule, ws.bisected(child1, child2).active),
{
    let s = ws.active;
    lemma_placed_ascending(s, child1);
    lemma_placed_members(s, child1);
    let e1 = placed(s, child1);
    assert forall|i: int| 0 <= i < e1.len() implies rule_estimated(f, map, rule, #[trigger] e1[i]) by {
        if e1[i] != child1 {
            let j = choose|j: int| 0 <= j < s.len() && s[j] == e1[i];
            assert(rule_estimated(f, map, rule, s[j]));
        }
    }
    lemma_leaving(e1);
    let e2 = thinned(e1);
    assert forall|i: int| 0 <= i < e2.len() implies rule_estimated(f, map, rule, #[trigger] e2[i]) by {
        assert(e2[i] == e1[if i < leaving_place(e1) {
            i
        } else {
            i + 1
        }]);
    }
    if s.len() >= 1 {
        let s0 = s.drop_last();
        lemma_ascending_parts(s);
        lemma_placed_ascending(s0, child1);
        lemma_placed_members(s0, child1);
        let s1 = placed(s0, child1);
        assert forall|i: int| 0 <= i < s1.len() implies rule_estimated(f, map, rule, #[trigger] s1[i]) by {
            if s1[i] != child1 {
                let j = choose|j: int| 0 <= j < s0.len() && s0[j] == s1[i];
                assert(s0[j] == s[j]);
                assert(rule_estimated(f, map, rule, s[j]));
            }
        }
        lemma_placed_ascending(s1, child2);
        lemma_placed_members(s1, child2);
        let s2 = placed(s1, child2);
        assert forall|i: int| 0 <= i < s2.len() implies rule_estimated(f, map, rule, #[trigger] s2[i]) by {
            if s2[i] != child2 {
                let j = choose|j: int| 0 <= j < s1.len() && s1[j] == s2[i];
                assert(rule_estimated(f, map, rule, s1[j]));
            }
        }
        lemma_leaving(s2);
        let s3 = thinned(s2);
        assert forall|i: int| 0 <= i < s3.len() implies rule_estimated(f, map, rule, #[trigger] s3[i]) by {
            assert(s3[i] == s2[if i < leaving_place(s2) {
                i
            } else {
                i + 1
            }]);
        }
    }
}

/// The values `v` are values of the integrand, seen through the mapping, at the
/// sample points of the whole range, and if the first estimate, made from them,
/// is within tolerance,
/// the integration succeeds at once: the status is `Success` and `active` holds
/// the whole range alone, with that estimate.
pub open spec fn settles_at_once<F: Fn(i64) -> i64>(
    f: &F,
    map: Mapping,
    rule: GaussKronrodRule,
    lo: i64,
    hi: i64,
    epsabs: i64,
    epsrel: i64,
    v: Seq<i64>,
    status: Value,
    active: Seq<Subinterval>,
) -> bool {
    let first = estimate_of(rule, lo, hi, v);
    &&& sampled_through(f, map, rule, lo, hi, v)
    &&& first.abserr <= tolerance_of(epsabs, epsrel, first.result) ==> status is Success
        && active =~= seq![whole(lo, hi, first)]
}

/// The integrand returns `c` wherever it is called in `[lo, hi]`.
pub open spec fn constant_on<F: Fn(i64) -> i64>(f: &F, lo: i64, hi: i64, c: i64) -> bool {
    forall|x: i64, y: i64| lo <= x <= hi && #[trigger] call_ensures(*f, (x,), y) ==> y == c
}

/// An adaptive integration of a constant integrand ends after the first
/// estimate. Where the integrand returns `c` everywhere in `[lo, hi]` and the
/// tolerances are valid, an integration that settles at once (as `qag` and
/// `qags` promise to) succeeds with exactly one interval, the whole range,
/// whose estimate is the product of `c` and the width of the range and whose
/// error is the floor.
pub proof fn lemma_constant_integrand<F: Fn(i64) -> i64>(
    f: &F,
    rule: GaussKronrodRule,
    lo: i64,
    hi: i64,
    epsabs: i64,
    epsrel: i64,
    c: i64,
    status: Value,
    active: Seq<Subinterval>,
)
    requires
        lo <= hi,
        constant_on(f, lo, hi, c),
        exists|v: Seq<i64>| #[trigger]
            settles_at_once(f, Mapping::Identity, rule, lo, hi, epsabs, epsrel, v, status, active),
        tolerances_valid(epsabs, epsrel),
    ensures
        status is Success,
        active =~= seq![whole(lo, hi, constant_estimate(c, lo, hi))],
        active.len() == 1,
{
    let v = choose|v: Seq<i64>| #[trigger]
        settles_at_once(f, Mapping::Identity, rule, lo, hi, epsabs, epsrel, v, status, active);
    assert forall|p: int| 0 <= p < v.len() implies v[p] == c by {
        lemma_abscissa_inside(rule, lo, hi, p);
        assert(Mapping::Identity.relates(f, abscissa(rule, lo, hi, p) as i64, v[p]));
    }
    lemma_constant_samples(rule, lo, hi, v, c);
    lemma_constant_floor_within_tolerance(epsabs, epsrel, c, lo, hi);
}

/// The points are in ascending order.
pub open spec fn ascending_points(pts: Seq<i64>) -> bool {
    forall|i: int, j: int| 0 <= i <= j < pts.len() ==> pts[i] <= pts[j]
}

/// How the adaptive loop is run.
#[derive(Clone, Copy, Debug, PartialEq, Eq, Structural)]
pub struct Scheme {
    /// The rule that estimates each interval.
    pub rule: GaussKronrodRule,
    /// The mapping through which the rule samples the integrand.
    pub map: Mapping,
    /// Whether the sequence of estimates is extrapolated.
    pub extrapolate: bool,
    /// Whether a failure is looked at for signs of divergence.
    pub watch: bool,
    /// The level from which on no interval is bisected, where there is one.
    pub depth: Option<usize>,
}

impl Scheme {
    /// An interval of this level is not bisected under the scheme.
    pub open spec fn too_deep(self, level: usize) -> bool {
        match self.depth {
            Some(d) => level >= d,
            None => false,
        }
    }

    /// True when an interval of this level is not bisected under the scheme.
    pub fn is_too_deep(&self, level: usize) -> (r: bool)
        ensures
            r == self.too_deep(level),
    {
        match self.depth {
            Some(d) => level >= d,
            None => false,
        }
    }
}

/// What an adaptive integration promises of its result `r`, with `ws` the
/// working set it leaves behind.
///
/// The status is `Success` exactly when the reported error is within the
/// tolerance for the reported estimate. Where the sums over the working set are
/// within tolerance, they are what is reported; otherwise an extrapolated
/// estimate may stand in their place, on failure only one whose error estimate
/// is below that of the sums.
///
/// Without extrapolation the sums over the working set are always what is
/// reported. The status is `TableInsufficient` only where the interval with the
/// largest error has reached the depth of the scheme, and `Divergent` only
/// where the scheme watches for divergence. The limit on the number of
/// intervals is reported only when that many are in use, and singular behavior
/// only when the interval with the largest error is less than two quanta wide.
pub open spec fn accelerated_outcome(
    epsabs: i64,
    epsrel: i64,
    limit: usize,
    scheme: Scheme,
    ws: WorkingSet,
    r: (Value, i64, u64),
) -> bool {
    &&& (r.0 is Success || r.0 is IntervalLimitReached || r.0 is RoundoffLimited
        || r.0 is SingularBehavior || r.0 is Divergent || r.0 is TableInsufficient)
    &&& (r.0 is TableInsufficient ==> scheme.too_deep(ws.worst().level))
    &&& (!scheme.extrapolate ==> r.1 == reported_result(ws) && r.2 == reported_error(ws))
    &&& (r.0 is Success <==> r.2 <= tolerance_of(epsabs, epsrel, r.1))
    &&& (within_tolerance(epsabs, epsrel, ws) ==> r.1 == reported_result(ws) && r.2
        == reported_error(ws))
    &&& (!(r.0 is Success) ==> r.2 <= reported_error(ws))
    &&& (!(r.0 is Success) && r.2 == reported_error(ws) ==> r.1 == reported_result(ws))
    &&& (r.0 is IntervalLimitReached ==> ws.active.len() == limit)
    &&& (r.0 is SingularBehavior ==> ws.worst().b - ws.worst().a < 2)
    &&& (r.0 is Divergent ==> scheme.watch)
}

/// What an extrapolating integration from `a` to `b` promises of its result
/// `r`, where `ordered` is the estimate of the integral over the ordered range:
/// the reported estimate is `ordered`, with its sign turned when `b < a`.
pub open spec fn oriented_outcome(
    a: i64,
    b: i64,
    epsabs: i64,
    epsrel: i64,
    limit: usize,
    scheme: Scheme,
    ws: WorkingSet,
    r: (Value, i64, u64),
    ordered: i64,
) -> bool {
    r.1 == oriented(a, b, ordered as int) && accelerated_outcome(
        epsabs,
        epsrel,
        limit,
        scheme,
        ws,
        (r.0, ordered, r.2),
    )
}

/// The scheme for integrands with singularities: the 21-point rule with
/// extrapolation.
pub open spec fn singular_scheme() -> Scheme {
    Scheme {
        rule: GaussKronrodRule::Gauss21,
        map: Mapping::Identity,
        extrapolate: true,
        watch: false,
        depth: None,
    }
}

/// The scheme of plain bisection with the rule `key`.
pub open spec fn plain_scheme(key: GaussKronrodRule) -> Scheme {
    Scheme { rule: key, map: Mapping::Identity, extrapolate: false, watch: false, depth: None }
}

/// The scheme for an infinite range mapped onto `(0, 1]` by `map`: the 15-point
/// rule with extrapolation, watching for divergence.
pub open spec fn infinite_scheme(map: Mapping) -> Scheme {
    Scheme { rule: GaussKronrodRule::Gauss15, map, extrapolate: true, watch: true, depth: None }
}

/// The driver of an integration before its first estimate.
pub open spec fn initial_driver(epsabs: i64, epsrel: i64, limit: usize) -> Driver {
    Driver {
        state: DriverState::Init,
        epsabs,
        epsrel,
        limit,
        stagnations: 0,
        inflations: 0,
    }
}

/// The state in which the bisections start, with `ws` the working set that
/// holds the first estimates.
pub open spec fn start_of(
    scheme: Scheme,
    epsabs: i64,
    epsrel: i64,
    limit: usize,
    ws: WorkingSet,
) -> Course {
    Course {
        ws,
        driver: initial_driver(epsabs, epsrel, limit).begun(ws),
        acc: first_observation(scheme, ws),
    }
}

/// The report of an integration from `a` to `b`, given the report `ordered` of
/// the integration over the ordered range: the sign of the estimate turns when
/// `b < a`.
pub open spec fn turned(a: i64, b: i64, ordered: (Value, i64, u64)) -> (Value, i64, u64) {
    (ordered.0, oriented(a, b, ordered.1 as int) as i64, ordered.2)
}

/// The integration from `a` to `b` under the scheme, which found the workspace
/// as `before`, has taken this course: the first estimate of the whole range
/// was `first`, the bisections were `steps`, every estimate is one that `rel`
/// tells to be an estimate of its interval, the workspace is left as `end`, and
/// the result `r` is the report at the end of the course.
pub open spec fn integrated(
    rel: spec_fn(i64, i64, RuleEstimate) -> bool,
    scheme: Scheme,
    a: i64,
    b: i64,
    epsabs: i64,
    epsrel: i64,
    limit: usize,
    before: WorkingSet,
    first: RuleEstimate,
    steps: Seq<Bisection>,
    end: WorkingSet,
    r: (Value, i64, u64),
) -> bool {
    let lo = lower_of(a, b);
    let hi = upper_of(a, b);
    let start = start_of(
        scheme,
        epsabs,
        epsrel,
        limit,
        before.reset(lo, hi).revised(whole(lo, hi, first)),
    );
    let last = start.followed(scheme, steps);
    &&& rel(lo, hi, first)
    &&& legitimate(rel, scheme, start, steps)
    &&& !last.goes_on(scheme)
    &&& last.ws == end
    &&& r == turned(a, b, last.report(scheme))
}

/// The working set after the first `k` parts of the range that `pts` gives have
/// entered it with the estimates `seeds`.
pub open spec fn seeded(
    before: WorkingSet,
    pts: Seq<i64>,
    seeds: Seq<RuleEstimate>,
    k: nat,
) -> WorkingSet
    decreases k,
{
    if k == 0 {
        before.cleared()
    } else {
        seeded(before, pts, seeds, (k - 1) as nat).entered(
            whole(pts[k - 1], pts[k as int], seeds[k - 1]),
        )
    }
}

/// The integration over the range that `pts` gives, part by part, under the
/// scheme, which found the workspace as `before`, has taken this course: the
/// first estimates of the parts were `seeds`, the bisections were `steps`,
/// every estimate is one that `rel` tells to be an estimate of its interval,
/// the workspace is left as `end`, and the result `r` is the report at the end
/// of the course.
pub open spec fn integrated_parts(
    rel: spec_fn(i64, i64, RuleEstimate) -> bool,
    scheme: Scheme,
    pts: Seq<i64>,
    epsabs: i64,
    epsrel: i64,
    limit: usize,
    before: WorkingSet,
    seeds: Seq<RuleEstimate>,
    steps: Seq<Bisection>,
    end: WorkingSet,
    r: (Value, i64, u64),
) -> bool {
    let start = start_of(
        scheme,
        epsabs,
        epsrel,
        limit,
        seeded(before, pts, seeds, (pts.len() - 1) as nat),
    );
    let last = start.followed(scheme, steps);
    &&& seeds.len() == pts.len() - 1
    &&& forall|k: int| 0 <= k < seeds.len() ==> rel(pts[k], pts[k + 1], #[trigger] seeds[k])
    &&& legitimate(rel, scheme, start, steps)
    &&& !last.goes_on(scheme)
    &&& last.ws == end
    &&& r == last.report(scheme)
}

/// The working set after the first `k` parts have entered rests on the first
/// `k` estimates only.
pub proof fn lemma_seeded_prefix(
    before: WorkingSet,
    pts: Seq<i64>,
    seeds: Seq<RuleEstimate>,
    others: Seq<RuleEstimate>,
    k: nat,
)
    requires
        forall|j: int| 0 <= j < k ==> seeds[j] == others[j],
    ensures
        seeded(before, pts, seeds, k) == seeded(before, pts, others, k),
    decreases k,
{
    if k > 0 {
        lemma_seeded_prefix(before, pts, seeds, others, (k - 1) as nat);
    }
}

/// The adaptive loop, on a workspace that holds the first estimates and a
/// driver that has left its initial state.
fn accelerated_loop<F: Fn(i64) -> i64>(
    ws: &mut IntegrationWorkspace,
    f: &F,
    lo: i64,
    hi: i64,
    begun: Driver,
    scheme: Scheme,
) -> (r: (Value, i64, u64))
    requires
        old(ws).wf(),
        begun.wf(),
        begun.state is Iterating || begun.state is Converged || begun.state is RoundoffLimited,
        (begun.state is Converged) == within_tolerance(begun.epsabs, begun.epsrel, old(ws)@),
        1 <= old(ws)@.active.len() <= begun.limit <= old(ws)@.capacity,
        all_within(old(ws)@.active, lo, hi),
        partitions(old(ws)@.active, lo, hi),
        all_estimated(f, scheme.map, scheme.rule, old(ws)@.active),
        scheme.map.admits(f, lo, hi),
    ensures
        final(ws).wf(),
        final(ws)@.capacity == old(ws)@.capacity,
        1 <= final(ws)@.active.len() <= begun.limit,
        all_within(final(ws)@.active, lo, hi),
        partitions(final(ws)@.active, lo, hi),
        all_estimated(f, scheme.map, scheme.rule, final(ws)@.active),
        accelerated_outcome(begun.epsabs, begun.epsrel, begun.limit, scheme, final(ws)@, r),
        old(ws)@.active.len() <= final(ws)@.active.len(),
        begun.state is Converged ==> final(ws)@ == old(ws)@,
        exists|steps: Seq<Bisection>| #[trigger]
            completed(
                estimates(f, scheme.map, scheme.rule),
                scheme,
                Course { ws: old(ws)@, driver: begun, acc: first_observation(scheme, old(ws)@) },
                steps,
                final(ws)@,
                r,
            ),
{
    let mut driver = begun;
    let mut accel = Accelerator::new();
    let (area0, _) = ws.estimates();
    if scheme.extrapolate {
        accel.observe(area0);
    }
    let ghost rel = estimates(f, scheme.map, scheme.rule);
    let ghost start = Course { ws: ws@, driver: begun, acc: accel@ };
    let ghost steps = Seq::<Bisection>::empty();
    proof {
        lemma_followed(start, scheme, steps, arbitrary());
    }
    loop
        invariant
            rel == estimates(f, scheme.map, scheme.rule),
            start == (Course {
                ws: old(ws)@,
                driver: begun,
                acc: first_observation(scheme, old(ws)@),
            }),
            legitimate(rel, scheme, start, steps),
            start.followed(scheme, steps) == (Course { ws: ws@, driver, acc: accel@ }),
            ws.wf(),
            driver.wf(),
            driver.state is Iterating || driver.state is Converged || driver.state
                is RoundoffLimited,
            driver.epsabs == begun.epsabs,
            driver.epsrel == begun.epsrel,
            driver.limit == begun.limit,
            ws@.capacity == old(ws)@.capacity,
            1 <= ws@.active.len() <= driver.limit <= ws@.capacity,
            old(ws)@.active.len() <= ws@.active.len(),
            all_within(ws@.active, lo, hi),
            partitions(ws@.active, lo, hi),
            all_estimated(f, scheme.map, scheme.rule, ws@.active),
            (driver.state is Converged) == within_tolerance(driver.epsabs, driver.epsrel, ws@),
            begun.state is Converged ==> ws@ == old(ws)@ && driver.state is Converged,
            accel@.table.wf(),
            !scheme.extrapolate ==> accel@.best_error == u64::MAX,
            scheme.map.admits(f, lo, hi),
        decreases driver.limit - ws@.active.len(),
    {
        let ghost here = Course { ws: ws@, driver, acc: accel@ };
        let (area, errsum) = ws.estimates();
        if driver.state == DriverState::Converged {
            let r = (Value::Success, area, errsum);
            proof {
                assert(completed(rel, scheme, start, steps, ws@, r));
            }
            return r;
        }
        let (best, best_error) = accel.best();
        if best_error < u64::MAX && (best_error as u128) <= tolerance(
            driver.epsabs,
            driver.epsrel,
            best,
        ) {
            let r = (Value::Success, best, best_error);
            proof {
                assert(accepted(here.driver, here.acc));
                assert(completed(rel, scheme, start, steps, ws@, r));
            }
            return r;
        }
        let action = driver.plan(ws);
        match action {
            Action::Finish(status) => {
                let ext = if best_error < u64::MAX {
                    best
                } else {
                    area
                };
                let status = driver.conclude(scheme.watch, area, errsum, ext);
                let r = if best_error < errsum {
                    (status, best, best_error)
                } else {
                    (status, area, errsum)
                };
                proof {
                    assert(!accepted(here.driver, here.acc));
                    assert(here.driver.plan_of(here.ws) is Finish);
                    assert(r == here.report(scheme));
                    assert(completed(rel, scheme, start, steps, ws@, r));
                }
                return r;
            },
            Action::Bisect { parent, mid } => {
                if scheme.is_too_deep(parent.level) {
                    let r = if best_error < errsum {
                        (Value::TableInsufficient, best, best_error)
                    } else {
                        (Value::TableInsufficient, area, errsum)
                    };
                    proof {
                        assert(!accepted(here.driver, here.acc));
                        assert(here.driver.plan_of(here.ws) is Bisect);
                        assert(r == here.report(scheme));
                        assert(completed(rel, scheme, start, steps, ws@, r));
                    }
                    return r;
                }
                proof {
                    ws.lemma_view_wf();
                    assert(lo <= parent.a && parent.b <= hi);
                }
                let left = gauss_kronrod_through(f, scheme.map, parent.a, mid, scheme.rule);
                let right = gauss_kronrod_through(f, scheme.map, mid, parent.b, scheme.rule);
                proof {
                    let child1 = left_child(parent, mid, left);
                    let child2 = right_child(parent, mid, right);
                    lemma_within_kept(ws@, child1, child2, lo, hi);
                    lemma_partition_bisected(ws@, child1, child2, lo, hi);
                    let v1 = choose|v: Seq<i64>|
                        sampled_through(f, scheme.map, scheme.rule, parent.a, mid, v) && left == estimate_of(
                            scheme.rule,
                            parent.a,
                            mid,
                            v,
                        );
                    let v2 = choose|v: Seq<i64>|
                        sampled_through(f, scheme.map, scheme.rule, mid, parent.b, v) && right == estimate_of(
                            scheme.rule,
                            mid,
                            parent.b,
                            v,
                        );
                    assert(sampled_through(f, scheme.map, scheme.rule, child1.a, child1.b, v1));
                    assert(sampled_through(f, scheme.map, scheme.rule, child2.a, child2.b, v2));
                    lemma_estimated_kept(f, scheme.map, scheme.rule, ws@, child1, child2);
                    let step = Bisection { mid, left, right };
                    assert(!accepted(here.driver, here.acc));
                    assert(estimate_from(f, scheme.map, scheme.rule, parent.a, mid, left));
                    assert(estimate_from(f, scheme.map, scheme.rule, mid, parent.b, right));
                    assert(due(rel, scheme, here, step));
                    lemma_course_extended(rel, scheme, start, steps, step);
                    lemma_followed(start, scheme, steps, step);
                    steps = steps.push(step);
                }
                driver.commit(ws, mid, left, right);
                if scheme.extrapolate {
                    let (area, _) = ws.estimates();
                    accel.observe(area);
                }
            },
        }
    }
}

/// Refuses the arguments of an integration: the workspace is left without an
/// interval, as at the start of every integration.
pub fn refused(workspace: &mut IntegrationWorkspace) -> (r: (Value, i64, u64))
    requires
        old(workspace).wf(),
    ensures
        final(workspace).wf(),
        final(workspace)@ == old(workspace)@.cleared(),
        r == (Value::BadArgument, 0i64, 0u64),
{
    proof {
        workspace.lemma_view_wf();
    }
    workspace.clear();
    (Value::BadArgument, 0, 0)
}

impl IntegrationWorkspace {
    /// The estimates that the workspace stands for: the sums over its active
    /// intervals, saturated.
    pub fn estimates(&self) -> (r: (i64, u64))
        requires
            self.wf(),
        ensures
            r.0 == reported_result(self@),
            r.1 == reported_error(self@),
    {
        (saturate(self.total_result()), saturate_unsigned(self.total_error()))
    }

    /// Integrates `f`, seen through the mapping of the scheme, from `a` to `b`
    /// by adaptive bisection under the scheme, until the error estimate is
    /// within the larger of `epsabs` and `epsrel` times the magnitude of the
    /// estimate, or until `limit` intervals are in use.
    ///
    /// Returns the status, the estimate of the integral and the estimate of its
    /// absolute error. The arguments are refused, before the integrand is
    /// evaluated, when the tolerances cannot be met or when `limit` exceeds
    /// the capacity of the workspace; the workspace is then left without an
    /// interval. A limit of zero stands for one: the first estimate is always
    /// made. At the end the intervals of the workspace part the range, and the
    /// estimates of each are those of the rule of the scheme.
    pub fn integrate<F: Fn(i64) -> i64>(
        &mut self,
        f: &F,
        a: i64,
        b: i64,
        epsabs: i64,
        epsrel: i64,
        limit: usize,
        scheme: Scheme,
    ) -> (r: (Value, i64, u64))
        requires
            old(self).wf(),
            scheme.map.admits(f, lower_of(a, b), upper_of(a, b)),
        ensures
            final(self).wf(),
            r.0 is BadArgument <==> !(tolerances_valid(epsabs, epsrel) && limit <= old(
                self,
            )@.capacity),
            r.0 is BadArgument ==> r.1 == 0 && r.2 == 0 && final(self)@ == old(self)@.cleared(),
            !(r.0 is BadArgument) ==> {
                &&& final(self)@.capacity == old(self)@.capacity
                &&& 1 <= final(self)@.active.len() <= served(limit, 1)
                &&& all_within(final(self)@.active, lower_of(a, b), upper_of(a, b))
                &&& partitions(final(self)@.active, lower_of(a, b), upper_of(a, b))
                &&& all_estimated(f, scheme.map, scheme.rule, final(self)@.active)
                &&& exists|first: RuleEstimate, steps: Seq<Bisection>| #[trigger]
                    integrated(
                        estimates(f, scheme.map, scheme.rule),
                        scheme,
                        a,
                        b,
                        epsabs,
                        epsrel,
                        served(limit, 1),
                        old(self)@,
                        first,
                        steps,
                        final(self)@,
                        r,
                    )
                &&& exists|ordered: i64| #[trigger]
                    oriented_outcome(a, b, epsabs, epsrel, served(limit, 1), scheme, final(self)@, r, ordered)
                &&& exists|v: Seq<i64>| #[trigger]
                    settles_at_once(
                        f,
                        scheme.map,
                        scheme.rule,
                        lower_of(a, b),
                        upper_of(a, b),
                        epsabs,
                        epsrel,
                        v,
                        r.0,
                        final(self)@.active,
                    )
            },
    {
        proof {
            self.lemma_view_wf();
        }
        let limit = serve(limit, 1);
        let made = Driver::new(epsabs, epsrel, limit, self.limit());
        let mut driver = match made {
            Some(d) => d,
            None => {
                return refused(self);
            },
        };
        let lo = if a <= b {
            a
        } else {
            b
        };
        let hi = if a <= b {
            b
        } else {
            a
        };
        let first = gauss_kronrod_through(f, scheme.map, lo, hi, scheme.rule);
        let ghost v0 = choose|v: Seq<i64>|
            sampled_through(f, scheme.map, scheme.rule, lo, hi, v) && first == estimate_of(
                scheme.rule,
                lo,
                hi,
                v,
            );
        driver.begin(self, lo, hi, first);
        proof {
            lemma_single(whole(lo, hi, first));
            lemma_single(seed(lo, hi));
            assert(self@.active =~= seq![whole(lo, hi, first)]);
            lemma_partition_single(whole(lo, hi, first));
            assert(rule_estimated(f, scheme.map, scheme.rule, whole(lo, hi, first)));
        }
        let ghost rel = estimates(f, scheme.map, scheme.rule);
        let ghost start = start_of(scheme, epsabs, epsrel, limit, self@);
        let (status, result, abserr) = accelerated_loop(self, f, lo, hi, driver, scheme);
        let r = if a <= b {
            (status, result, abserr)
        } else {
            (status, negate(result), abserr)
        };
        proof {
            let steps = choose|steps: Seq<Bisection>| #[trigger]
                completed(rel, scheme, start, steps, self@, (status, result, abserr));
            assert(estimate_from(f, scheme.map, scheme.rule, lo, hi, first));
            assert(integrated(
                rel,
                scheme,
                a,
                b,
                epsabs,
                epsrel,
                limit,
                old(self)@,
                first,
                steps,
                self@,
                r,
            ));
            assert(!(r.0 is BadArgument));
            assert(lo == lower_of(a, b) && hi == upper_of(a, b));
            assert(oriented_outcome(a, b, epsabs, epsrel, limit, scheme, self@, r, result));
            assert(settles_at_once(
                f,
                scheme.map,
                scheme.rule,
                lo,
                hi,
                epsabs,
                epsrel,
                v0,
                status,
                self@.active,
            ));
        }
        r
    }

    /// Integrates `f` from `a` to `b` by adaptive bisection with the
    /// Gauss-Kronrod rule `key`, until the total error estimate is within the
    /// larger of `epsabs` and `epsrel` times the magnitude of the estimate, or
    /// until `limit` intervals are in use.
    ///
    /// Returns the status, the estimate of the integral and the estimate of its
    /// absolute error: the sums over the intervals that the workspace holds at
    /// the end, the sign of the integral turned when `b < a`. The integrand is
    /// called inside the range only.
    pub fn qag<F: Fn(i64) -> i64>(
        &mut self,
        f: F,
        a: i64,
        b: i64,
        epsabs: i64,
        epsrel: i64,
        limit: usize,
        key: GaussKronrodRule,
    ) -> (r: (Value, i64, u64))
        requires
            old(self).wf(),
            forall|x: i64| lower_of(a, b) <= x <= upper_of(a, b) ==> call_requires(f, (x,)),
        ensures
            final(self).wf(),
            r.0 is BadArgument <==> !(tolerances_valid(epsabs, epsrel) && limit <= old(
                self,
            )@.capacity),
            r.0 is BadArgument ==> r.1 == 0 && r.2 == 0 && final(self)@ == old(self)@.cleared(),
            !(r.0 is BadArgument) ==> {
                &&& final(self)@.capacity == old(self)@.capacity
                &&& 1 <= final(self)@.active.len() <= served(limit, 1)
                &&& all_within(final(self)@.active, lower_of(a, b), upper_of(a, b))
                &&& partitions(final(self)@.active, lower_of(a, b), upper_of(a, b))
                &&& all_estimated(&f, Mapping::Identity, key, final(self)@.active)
                &&& r.1 == oriented(a, b, reported_result(final(self)@))
                &&& r.2 == reported_error(final(self)@)
                &&& (r.0 is Success <==> within_tolerance(epsabs, epsrel, final(self)@))
                &&& (r.0 is IntervalLimitReached ==> final(self)@.active.len() == served(limit, 1))
                &&& (r.0 is SingularBehavior ==> final(self)@.worst().b - final(self)@.worst().a
                    < 2)
                &&& (r.0 is Success || r.0 is IntervalLimitReached || r.0 is RoundoffLimited
                    || r.0 is SingularBehavior)
                &&& exists|first: RuleEstimate, steps: Seq<Bisection>| #[trigger]
                    integrated(
                        estimates(&f, Mapping::Identity, key),
                        plain_scheme(key),
                        a,
                        b,
                        epsabs,
                        epsrel,
                        served(limit, 1),
                        old(self)@,
                        first,
                        steps,
                        final(self)@,
                        r,
                    )
                &&& exists|v: Seq<i64>| #[trigger]
                    settles_at_once(
                        &f,
                        Mapping::Identity,
                        key,
                        lower_of(a, b),
                        upper_of(a, b),
                        epsabs,
                        epsrel,
                        v,
                        r.0,
                        final(self)@.active,
                    )
                &&& forall|c: i64| #[trigger]
                    constant_on(&f, lower_of(a, b), upper_of(a, b), c) ==> r.0 is Success
                        && final(self)@.active == seq![
                        whole(
                            lower_of(a, b),
                            upper_of(a, b),
                            constant_estimate(c, lower_of(a, b), upper_of(a, b)),
                        ),
                    ]
            },
    {
        proof {
            self.lemma_view_wf();
        }
        let limit = serve(limit, 1);
        let scheme = Scheme {
            rule: key,
            map: Mapping::Identity,
            extrapolate: false,
            watch: false,
            depth: None,
        };
        let r = self.integrate(&f, a, b, epsabs, epsrel, limit, scheme);
        proof {
            if !(r.0 is BadArgument) {
                let ordered = choose|ordered: i64| #[trigger]
                    oriented_outcome(a, b, epsabs, epsrel, limit, scheme, self@, r, ordered);
                assert(ordered == reported_result(self@));
                let lo = lower_of(a, b);
                let hi = upper_of(a, b);
                assert forall|c: i64| #[trigger] constant_on(&f, lo, hi, c) implies r.0 is Success
                    && self@.active == seq![whole(lo, hi, constant_estimate(c, lo, hi))] by {
                    lemma_constant_integrand(&f, key, lo, hi, epsabs, epsrel, c, r.0, self@.active);
                }
            }
        }
        r
    }

    /// Integrates `f` from `a` to `b` by adaptive bisection with the 21-point
    /// rule, and accelerates the convergence of the sequence of estimates by
    /// extrapolation, which copes with integrable singularities.
    ///
    /// Returns the status, the estimate of the integral and the estimate of its
    /// absolute error. The integrand is called inside the range only.
    pub fn qags<F: Fn(i64) -> i64>(
        &mut self,
        f: F,
        a: i64,
        b: i64,
        epsabs: i64,
        epsrel: i64,
        limit: usize,
    ) -> (r: (Value, i64, u64))
        requires
            old(self).wf(),
            forall|x: i64| lower_of(a, b) <= x <= upper_of(a, b) ==> call_requires(f, (x,)),
        ensures
            final(self).wf(),
            r.0 is BadArgument <==> !(tolerances_valid(epsabs, epsrel) && limit <= old(
                self,
            )@.capacity),
            r.0 is BadArgument ==> r.1 == 0 && r.2 == 0 && final(self)@ == old(self)@.cleared(),
            !(r.0 is BadArgument) ==> {
                &&& final(self)@.capacity == old(self)@.capacity
                &&& 1 <= final(self)@.active.len() <= served(limit, 1)
                &&& all_within(final(self)@.active, lower_of(a, b), upper_of(a, b))
                &&& partitions(final(self)@.active, lower_of(a, b), upper_of(a, b))
                &&& all_estimated(
                    &f,
                    Mapping::Identity,
                    GaussKronrodRule::Gauss21,
                    final(self)@.active,
                )
                &&& exists|first: RuleEstimate, steps: Seq<Bisection>| #[trigger]
                    integrated(
                        estimates(&f, Mapping::Identity, GaussKronrodRule::Gauss21),
                        singular_scheme(),
                        a,
                        b,
                        epsabs,
                        epsrel,
                        served(limit, 1),
                        old(self)@,
                        first,
                        steps,
                        final(self)@,
                        r,
                    )
                &&& exists|ordered: i64| #[trigger]
                    oriented_outcome(
                        a,
                        b,
                        epsabs,
                        epsrel,
                        served(limit, 1),
                        singular_scheme(),
                        final(self)@,
                        r,
                        ordered,
                    )
                &&& exists|v: Seq<i64>| #[trigger]
                    settles_at_once(
                        &f,
                        Mapping::Identity,
                        GaussKronrodRule::Gauss21,
                        lower_of(a, b),
                        upper_of(a, b),
                        epsabs,
                        epsrel,
                        v,
                        r.0,
                        final(self)@.active,
                    )
                &&& forall|c: i64| #[trigger]
                    constant_on(&f, lower_of(a, b), upper_of(a, b), c) ==> r.0 is Success
                        && final(self)@.active == seq![
                        whole(
                            lower_of(a, b),
                            upper_of(a, b),
                            constant_estimate(c, lower_of(a, b), upper_of(a, b)),
                        ),
                    ]
            },
    {
        proof {
            self.lemma_view_wf();
        }
        let limit = serve(limit, 1);
        let scheme = Scheme {
            rule: GaussKronrodRule::Gauss21,
            map: Mapping::Identity,
            extrapolate: true,
            watch: false,
            depth: None,
        };
        let r = self.integrate(&f, a, b, epsabs, epsrel, limit, scheme);
        proof {
            if !(r.0 is BadArgument) {
                let lo = lower_of(a, b);
                let hi = upper_of(a, b);
                assert forall|c: i64| #[trigger] constant_on(&f, lo, hi, c) implies r.0 is Success
                    && self@.active == seq![whole(lo, hi, constant_estimate(c, lo, hi))] by {
                    lemma_constant_integrand(
                        &f,
                        GaussKronrodRule::Gauss21,
                        lo,
                        hi,
                        epsabs,
                        epsrel,
                        c,
                        r.0,
                        self@.active,
                    );
                }
            }
        }
        r
    }

    /// Integrates `f` over the range whose ends and inner break points `pts`
    /// gives, in ascending order. Each part between two neighbouring points
    /// gets an estimate of its own before the bisection starts, so that known
    /// singular points never lie inside an interval. Otherwise as `qags`.
    ///
    /// The arguments are refused when there are fewer than two points or more
    /// parts than the workspace can hold, or when the points do not ascend. A
    /// limit below the number of parts stands for that number.
    pub fn qagp<F: Fn(i64) -> i64>(
        &mut self,
        f: F,
        pts: &[i64],
        epsabs: i64,
        epsrel: i64,
        limit: usize,
    ) -> (r: (Value, i64, u64))
        requires
            old(self).wf(),
            pts@.len() >= 1 ==> forall|x: i64|
                pts@.first() <= x <= pts@.last() ==> call_requires(f, (x,)),
        ensures
            final(self).wf(),
            r.0 is BadArgument <==> !(tolerances_valid(epsabs, epsrel) && limit <= old(
                self,
            )@.capacity && 2 <= pts@.len() <= old(self)@.capacity + 1 && ascending_points(pts@)),
            r.0 is BadArgument ==> r.1 == 0 && r.2 == 0 && final(self)@ == old(self)@.cleared(),
            !(r.0 is BadArgument) ==> {
                &&& final(self)@.capacity == old(self)@.capacity
                &&& pts@.len() - 1 <= final(self)@.active.len() <= served(limit, pts@.len() - 1)
                &&& all_within(final(self)@.active, pts@.first(), pts@.last())
                &&& partitions(final(self)@.active, pts@.first(), pts@.last())
                &&& all_estimated(
                    &f,
                    Mapping::Identity,
                    GaussKronrodRule::Gauss21,
                    final(self)@.active,
                )
                &&& exists|seeds: Seq<RuleEstimate>, steps: Seq<Bisection>| #[trigger]
                    integrated_parts(
                        estimates(&f, Mapping::Identity, GaussKronrodRule::Gauss21),
                        singular_scheme(),
                        pts@,
                        epsabs,
                        epsrel,
                        served(limit, pts@.len() - 1),
                        old(self)@,
                        seeds,
                        steps,
                        final(self)@,
                        r,
                    )
                &&& accelerated_outcome(epsabs, epsrel, served(limit, pts@.len() - 1), singular_scheme(), final(self)@, r)
                &&& pts@.len() == 2 ==> forall|c: i64| #[trigger]
                    constant_on(&f, pts@[0], pts@[1], c) ==> r.0 is Success && final(self)@.active
                        == seq![whole(pts@[0], pts@[1], constant_estimate(c, pts@[0], pts@[1]))]
            },
    {
        let scheme = Scheme {
            rule: GaussKronrodRule::Gauss21,
            map: Mapping::Identity,
            extrapolate: true,
            watch: false,
            depth: None,
        };
        let r = self.integrate_parts(&f, pts, epsabs, epsrel, limit, scheme);
        proof {
            if !(r.0 is BadArgument) && pts@.len() == 2 {
                let lo = pts@[0];
                let hi = pts@[1];
                assert forall|c: i64| #[trigger] constant_on(&f, lo, hi, c) implies r.0 is Success
                    && self@.active == seq![whole(lo, hi, constant_estimate(c, lo, hi))] by {
                    lemma_constant_integrand(
                        &f,
                        GaussKronrodRule::Gauss21,
                        lo,
                        hi,
                        epsabs,
                        epsrel,
                        c,
                        r.0,
                        self@.active,
                    );
                }
            }
        }
        r
    }

    /// Integrates `f`, seen through the mapping of the scheme, over the range
    /// that `pts` gives, part by part, under the scheme.
    ///
    /// The arguments are refused, before the integrand is evaluated, when the
    /// tolerances cannot be met, when `limit` exceeds the capacity of the
    /// workspace, when there are fewer than two points or more parts than the
    /// workspace can hold, or when the points do not ascend; the workspace is
    /// then left without an interval. A limit below the number of parts stands
    /// for that number: the first estimate of every part is always made.
    pub fn integrate_parts<F: Fn(i64) -> i64>(
        &mut self,
        f: &F,
        pts: &[i64],
        epsabs: i64,
        epsrel: i64,
        limit: usize,
        scheme: Scheme,
    ) -> (r: (Value, i64, u64))
        requires
            old(self).wf(),
            pts@.len() >= 1 ==> scheme.map.admits(f, pts@.first(), pts@.last()),
        ensures
            final(self).wf(),
            r.0 is BadArgument <==> !(tolerances_valid(epsabs, epsrel) && limit <= old(
                self,
            )@.capacity && 2 <= pts@.len() <= old(self)@.capacity + 1 && ascending_points(pts@)),
            r.0 is BadArgument ==> r.1 == 0 && r.2 == 0 && final(self)@ == old(self)@.cleared(),
            !(r.0 is BadArgument) ==> {
                &&& final(self)@.capacity == old(self)@.capacity
                &&& pts@.len() - 1 <= final(self)@.active.len() <= served(limit, pts@.len() - 1)
                &&& all_within(final(self)@.active, pts@.first(), pts@.last())
                &&& partitions(final(self)@.active, pts@.first(), pts@.last())
                &&& all_estimated(f, scheme.map, scheme.rule, final(self)@.active)
                &&& exists|seeds: Seq<RuleEstimate>, steps: Seq<Bisection>| #[trigger]
                    integrated_parts(
                        estimates(f, scheme.map, scheme.rule),
                        scheme,
                        pts@,
                        epsabs,
                        epsrel,
                        served(limit, pts@.len() - 1),
                        old(self)@,
                        seeds,
                        steps,
                        final(self)@,
                        r,
                    )
                &&& accelerated_outcome(epsabs, epsrel, served(limit, pts@.len() - 1), scheme, final(self)@, r)
                &&& pts@.len() == 2 ==> exists|v: Seq<i64>| #[trigger]
                    settles_at_once(
                        f,
                        scheme.map,
                        scheme.rule,
                        pts@[0],
                        pts@[1],
                        epsabs,
                        epsrel,
                        v,
                        r.0,
                        final(self)@.active,
                    )
            },
    {
        proof {
            self.lemma_view_wf();
        }
        let count = pts.len();
        if count < 2 || count - 1 > self.limit() {
            return refused(self);
        }
        let mut k: usize = 1;
        while k < count
            invariant
                self.wf(),
                *self == *old(self),
                1 <= k <= count,
                count == pts@.len(),
                forall|i: int, j: int| 0 <= i <= j < k ==> pts@[i] <= pts@[j],
            decreases count - k,
        {
            if pts[k] < pts[k - 1] {
                return refused(self);
            }
            k = k + 1;
        }
        let limit = serve(limit, count - 1);
        let made = Driver::new(epsabs, epsrel, limit, self.limit());
        let mut driver = match made {
            Some(d) => d,
            None => {
                return refused(self);
            },
        };
        let lo = pts[0];
        let hi = pts[count - 1];
        self.clear();
        proof {
            lemma_partition_single(seed(lo, lo));
        }
        let ghost rel = estimates(f, scheme.map, scheme.rule);
        let ghost seeds = Seq::<RuleEstimate>::empty();
        let ghost v0 = Seq::<i64>::empty();
        k = 0;
        while k < count - 1
            invariant
                self.wf(),
                rel == estimates(f, scheme.map, scheme.rule),
                seeds.len() == k,
                forall|j: int| 0 <= j < k ==> rel(pts@[j], pts@[j + 1], #[trigger] seeds[j]),
                self@ == seeded(old(self)@, pts@, seeds, k as nat),
                partitions(self@.active, lo, pts@[k as int]),
                all_estimated(f, scheme.map, scheme.rule, self@.active),
                self@.capacity == old(self)@.capacity,
                limit <= self@.capacity,
                count == pts@.len(),
                2 <= count <= limit + 1,
                k <= count - 1,
                self@.active.len() == k,
                k >= 1 ==> sampled_through(f, scheme.map, scheme.rule, pts@[0], pts@[1], v0)
                    && seeds[0] == estimate_of(scheme.rule, pts@[0], pts@[1], v0),
                lo == pts@.first(),
                hi == pts@.last(),
                ascending_points(pts@),
                all_within(self@.active, lo, hi),
                scheme.map.admits(f, lo, hi),
            decreases count - 1 - k,
        {
            let a = pts[k];
            let b = pts[k + 1];
            let e = gauss_kronrod_through(f, scheme.map, a, b, scheme.rule);
            let part = Subinterval { a, b, result: e.result, error: e.abserr, level: 0 };
            proof {
                self.lemma_view_wf();
                lemma_within_entered(self@, part, lo, hi);
                lemma_partition_entered(self@, part, lo);
                let v = choose|v: Seq<i64>|
                    sampled_through(f, scheme.map, scheme.rule, a, b, v) && e == estimate_of(
                        scheme.rule,
                        a,
                        b,
                        v,
                    );
                assert(sampled_through(f, scheme.map, scheme.rule, part.a, part.b, v));
                lemma_estimated_kept(f, scheme.map, scheme.rule, self@, part, part);
                assert(estimate_from(f, scheme.map, scheme.rule, a, b, e));
                lemma_seeded_prefix(old(self)@, pts@, seeds.push(e), seeds, k as nat);
                seeds = seeds.push(e);
                if k == 0 {
                    v0 = v;
                }
            }
            self.insert(part);
            k = k + 1;
        }
        driver.resume(self);
        let ghost start = start_of(scheme, epsabs, epsrel, limit, self@);
        let r = accelerated_loop(self, f, lo, hi, driver, scheme);
        proof {
            let steps = choose|steps: Seq<Bisection>| #[trigger]
                completed(rel, scheme, start, steps, self@, r);
            assert(integrated_parts(
                rel,
                scheme,
                pts@,
                epsabs,
                epsrel,
                limit,
                old(self)@,
                seeds,
                steps,
                self@,
                r,
            ));
            if count == 2 {
                reveal_with_fuel(seeded, 2);
                lemma_single(whole(lo, hi, seeds[0]));
                lemma_single(seed(lo, lo));
                assert(seeded(old(self)@, pts@, seeds, 0).active =~= Seq::<Subinterval>::empty());
                assert(start.ws.active =~= seq![whole(lo, hi, seeds[0])]);
                assert(settles_at_once(
                    f,
                    scheme.map,
                    scheme.rule,
                    lo,
                    hi,
                    epsabs,
                    epsrel,
                    v0,
                    r.0,
                    self@.active,
                ));
            }
        }
        r
    }

    /// Integrates `f` under the scheme for an infinite range that `map` maps
    /// onto `(0, 1]`.
    fn infinite<F: Fn(i64) -> i64>(
        &mut self,
        f: &F,
        map: Mapping,
        epsabs: i64,
        epsrel: i64,
        limit: usize,
    ) -> (r: (Value, i64, u64))
        requires
            old(self).wf(),
            map.admits(f, 0, ONE),
        ensures
            final(self).wf(),
            r.0 is BadArgument <==> !(tolerances_valid(epsabs, epsrel) && limit <= old(
                self,
            )@.capacity),
            r.0 is BadArgument ==> r.1 == 0 && r.2 == 0 && final(self)@ == old(self)@.cleared(),
            !(r.0 is BadArgument) ==> {
                &&& final(self)@.capacity == old(self)@.capacity
                &&& 1 <= final(self)@.active.len() <= served(limit, 1)
                &&& all_within(final(self)@.active, 0, ONE)
                &&& partitions(final(self)@.active, 0, ONE)
                &&& all_estimated(f, map, GaussKronrodRule::Gauss15, final(self)@.active)
                &&& exists|first: RuleEstimate, steps: Seq<Bisection>| #[trigger]
                    integrated(
                        estimates(f, map, GaussKronrodRule::Gauss15),
                        infinite_scheme(map),
                        0,
                        ONE,
                        epsabs,
                        epsrel,
                        served(limit, 1),
                        old(self)@,
                        first,
                        steps,
                        final(self)@,
                        r,
                    )
                &&& accelerated_outcome(
                    epsabs,
                    epsrel,
                    served(limit, 1),
                    infinite_scheme(map),
                    final(self)@,
                    r,
                )
            },
    {
        proof {
            self.lemma_view_wf();
        }
        let limit = serve(limit, 1);
        let scheme = Scheme {
            rule: GaussKronrodRule::Gauss15,
            map,
            extrapolate: true,
            watch: true,
            depth: None,
        };
        let r = self.integrate(f, 0, ONE, epsabs, epsrel, limit, scheme);
        proof {
            if !(r.0 is BadArgument) {
                let ordered = choose|ordered: i64| #[trigger]
                    oriented_outcome(0, ONE, epsabs, epsrel, limit, scheme, self@, r, ordered);
                assert(ordered == r.1);
            }
        }
        r
    }

    /// Integrates `f` over the whole line. The line is mapped onto `(0, 1]` by
    /// `x = (1 - t) / t`, both half lines at once, and the mapped integrand
    /// `(f(x) + f(-x)) / t^2` is integrated with the 15-point rule and
    /// extrapolation. Where the sums look divergent at the end of an
    /// integration that did not meet the tolerance, the status says so.
    pub fn qagi<F: Fn(i64) -> i64>(
        &mut self,
        f: F,
        epsabs: i64,
        epsrel: i64,
        limit: usize,
    ) -> (r: (Value, i64, u64))
        requires
            old(self).wf(),
            forall|x: i64| call_requires(f, (x,)),
        ensures
            final(self).wf(),
            r.0 is BadArgument <==> !(tolerances_valid(epsabs, epsrel) && limit <= old(
                self,
            )@.capacity),
            r.0 is BadArgument ==> r.1 == 0 && r.2 == 0 && final(self)@ == old(self)@.cleared(),
            !(r.0 is BadArgument) ==> {
                &&& final(self)@.capacity == old(self)@.capacity
                &&& 1 <= final(self)@.active.len() <= served(limit, 1)
                &&& all_within(final(self)@.active, 0, ONE)
                &&& partitions(final(self)@.active, 0, ONE)
                &&& all_estimated(
                    &f,
                    Mapping::WholeLine,
                    GaussKronrodRule::Gauss15,
                    final(self)@.active,
                )
                &&& exists|first: RuleEstimate, steps: Seq<Bisection>| #[trigger]
                    integrated(
                        estimates(&f, Mapping::WholeLine, GaussKronrodRule::Gauss15),
                        infinite_scheme(Mapping::WholeLine),
                        0,
                        ONE,
                        epsabs,
                        epsrel,
                        served(limit, 1),
                        old(self)@,
                        first,
                        steps,
                        final(self)@,
                        r,
                    )
                &&& accelerated_outcome(
                    epsabs,
                    epsrel,
                    served(limit, 1),
                    infinite_scheme(Mapping::WholeLine),
                    final(self)@,
                    r,
                )
            },
    {
        proof {
            self.lemma_view_wf();
        }
        let limit = serve(limit, 1);
        self.infinite(&f, Mapping::WholeLine, epsabs, epsrel, limit)
    }

    /// Integrates `f` from `a` to infinity. The range is mapped onto `(0, 1]`
    /// by `x = a + (1 - t) / t`, and the mapped integrand `f(x) / t^2` is
    /// integrated as in `qagi`.
    pub fn qagiu<F: Fn(i64) -> i64>(
        &mut self,
        f: F,
        a: i64,
        epsabs: i64,
        epsrel: i64,
        limit: usize,
    ) -> (r: (Value, i64, u64))
        requires
            old(self).wf(),
            forall|x: i64| a <= x ==> call_requires(f, (x,)),
        ensures
            final(self).wf(),
            r.0 is BadArgument <==> !(tolerances_valid(epsabs, epsrel) && limit <= old(
                self,
            )@.capacity),
            r.0 is BadArgument ==> r.1 == 0 && r.2 == 0 && final(self)@ == old(self)@.cleared(),
            !(r.0 is BadArgument) ==> {
                &&& final(self)@.capacity == old(self)@.capacity
                &&& 1 <= final(self)@.active.len() <= served(limit, 1)
                &&& all_within(final(self)@.active, 0, ONE)
                &&& partitions(final(self)@.active, 0, ONE)
                &&& all_estimated(
                    &f,
                    Mapping::Upward(a),
                    GaussKronrodRule::Gauss15,
                    final(self)@.active,
                )
                &&& exists|first: RuleEstimate, steps: Seq<Bisection>| #[trigger]
                    integrated(
                        estimates(&f, Mapping::Upward(a), GaussKronrodRule::Gauss15),
                        infinite_scheme(Mapping::Upward(a)),
                        0,
                        ONE,
                        epsabs,
                        epsrel,
                        served(limit, 1),
                        old(self)@,
                        first,
                        steps,
                        final(self)@,
                        r,
                    )
                &&& accelerated_outcome(
                    epsabs,
                    epsrel,
                    served(limit, 1),
                    infinite_scheme(Mapping::Upward(a)),
                    final(self)@,
                    r,
                )
            },
    {
        proof {
            self.lemma_view_wf();
        }
        let limit = serve(limit, 1);
        self.infinite(&f, Mapping::Upward(a), epsabs, epsrel, limit)
    }

    /// Integrates `f` from minus infinity to `b`. The range is mapped onto
    /// `(0, 1]` by `x = b - (1 - t) / t`, and the mapped integrand
    /// `f(x) / t^2` is integrated as in `qagi`.
    pub fn qagil<F: Fn(i64) -> i64>(
        &mut self,
        f: F,
        b: i64,
        epsabs: i64,
        epsrel: i64,
        limit: usize,
    ) -> (r: (Value, i64, u64))
        requires
            old(self).wf(),
            forall|x: i64| x <= b ==> call_requires(f, (x,)),
        ensures
            final(self).wf(),
            r.0 is BadArgument <==> !(tolerances_valid(epsabs, epsrel) && limit <= old(
                self,
            )@.capacity),
            r.0 is BadArgument ==> r.1 == 0 && r.2 == 0 && final(self)@ == old(self)@.cleared(),
            !(r.0 is BadArgument) ==> {
                &&& final(self)@.capacity == old(self)@.capacity
                &&& 1 <= final(self)@.active.len() <= served(limit, 1)
                &&& all_within(final(self)@.active, 0, ONE)
                &&& partitions(final(self)@.active, 0, ONE)
                &&& all_estimated(
                    &f,
                    Mapping::Downward(b),
                    GaussKronrodRule::Gauss15,
                    final(self)@.active,
                )
                &&& exists|first: RuleEstimate, steps: Seq<Bisection>| #[trigger]
                    integrated(
                        estimates(&f, Mapping::Downward(b), GaussKronrodRule::Gauss15),
                        infinite_scheme(Mapping::Downward(b)),
                        0,
                        ONE,
                        epsabs,
                        epsrel,
                        served(limit, 1),
                        old(self)@,
                        first,
                        steps,
                        final(self)@,
                        r,
                    )
                &&& accelerated_outcome(
                    epsabs,
                    epsrel,
                    served(limit, 1),
                    infinite_scheme(Mapping::Downward(b)),
                    final(self)@,
                    r,
                )
            },
    {
        proof {
            self.lemma_view_wf();
        }
        let limit = serve(limit, 1);
        self.infinite(&f, Mapping::Downward(b), epsabs, epsrel, limit)
    }
}

} // verus!
