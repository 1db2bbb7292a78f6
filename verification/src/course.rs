//! The course of an adaptive integration, as a sequence of bisections.
//!
//! An adaptive integration starts from a working set that holds first
//! estimates, and goes on by bisecting, again and again, the interval with the
//! largest error. Given what the rule reported of the two halves at each
//! bisection, everything else is decided: which interval is bisected next, when
//! the integration ends, and what it reports. This module says so in terms of
//! the state machine of the driver, and the routines promise that what they
//! return is the report at the end of such a course.
use vstd::prelude::*;
use crate::adaptive::Scheme;
use crate::driver::{left_child, reported_error, reported_result, right_child, Action, Driver};
use crate::extrapolation::AcceleratorModel;
use crate::rule::{centre, RuleEstimate};
use crate::status::{tolerance_of, Value};
use crate::workspace::WorkingSet;

verus! {

/// One bisection: where the interval with the largest error was split, and what
/// the rule reported of its two halves.
pub struct Bisection {
    pub mid: i64,
    pub left: RuleEstimate,
    pub right: RuleEstimate,
}

/// The state of an adaptive integration between two bisections.
pub struct Course {
    /// The working set.
    pub ws: WorkingSet,
    /// The decision state.
    pub driver: Driver,
    /// The extrapolation of the sequence of estimates.
    pub acc: AcceleratorModel,
}

/// The best extrapolated estimate is accepted: there is one, and its error
/// estimate is within the tolerance for it.
pub open spec fn accepted(driver: Driver, acc: AcceleratorModel) -> bool {
    acc.best_error < u64::MAX && acc.best_error <= tolerance_of(
        driver.epsabs,
        driver.epsrel,
        acc.best,
    )
}

/// The accelerator at the start of an integration under the scheme, with `ws`
/// the working set that holds the first estimates: under extrapolation it has
/// observed the first estimate of the integral.
pub open spec fn first_observation(scheme: Scheme, ws: WorkingSet) -> AcceleratorModel {
    if scheme.extrapolate {
        AcceleratorModel::fresh().observed(reported_result(ws) as i64)
    } else {
        AcceleratorModel::fresh()
    }
}

impl Course {
    /// The integration goes on with another bisection: the tolerance is not
    /// met, neither by the sums nor by an extrapolated estimate, the driver
    /// plans a bisection, and the interval to bisect is not too deep for the
    /// scheme.
    pub open spec fn goes_on(self, scheme: Scheme) -> bool {
        &&& !(self.driver.state is Converged)
        &&& !accepted(self.driver, self.acc)
        &&& self.driver.plan_of(self.ws) is Bisect
        &&& !scheme.too_deep(self.ws.worst().level)
    }

    /// The state after the bisection `step`.
    pub open spec fn advanced(self, scheme: Scheme, step: Bisection) -> Course {
        let parent = self.ws.worst();
        let ws = self.ws.bisected(
            left_child(parent, step.mid, step.left),
            right_child(parent, step.mid, step.right),
        );
        Course {
            ws,
            driver: self.driver.committed(self.ws, step.mid, step.left, step.right),
            acc: if scheme.extrapolate {
                self.acc.observed(reported_result(ws) as i64)
            } else {
                self.acc
            },
        }
    }

    /// The state after the bisections `steps`, one after the other.
    #[verifier::opaque]
    pub open spec fn followed(self, scheme: Scheme, steps: Seq<Bisection>) -> Course
        decreases steps.len(),
    {
        if steps.len() == 0 {
            self
        } else {
            self.followed(scheme, steps.drop_last()).advanced(scheme, steps.last())
        }
    }

    /// What an integration that ends in this state reports: the status, the
    /// estimate of the integral and the estimate of its error.
    ///
    /// Where the sums over the working set are within tolerance, they are
    /// reported with `Success`; else, where the best extrapolated estimate is
    /// accepted, it is reported with `Success`. Otherwise the integration has
    /// failed: the status is that of the driver, looked at for signs of
    /// divergence, or `TableInsufficient` where the driver planned to bisect
    /// an interval that is too deep for the scheme; and the estimates are the
    /// best extrapolated ones if their error is below that of the sums, else
    /// the sums.
    pub open spec fn report(self, scheme: Scheme) -> (Value, i64, u64) {
        let area = reported_result(self.ws) as i64;
        let errsum = reported_error(self.ws) as u64;
        if self.driver.state is Converged {
            (Value::Success, area, errsum)
        } else if accepted(self.driver, self.acc) {
            (Value::Success, self.acc.best, self.acc.best_error)
        } else {
            let ext = if self.acc.best_error < u64::MAX {
                self.acc.best
            } else {
                area
            };
            let status = match self.driver.plan_of(self.ws) {
                Action::Finish(_) => self.driver.planned(self.ws).concluded(
                    scheme.watch,
                    area,
                    errsum,
                    ext,
                ).status_of(),
                Action::Bisect { .. } => Value::TableInsufficient,
            };
            if self.acc.best_error < errsum {
                (status, self.acc.best, self.acc.best_error)
            } else {
                (status, area, errsum)
            }
        }
    }
}

/// The bisection `step` is due in the state `before` and done as the driver
/// plans it: the integration goes on, the split is at the centre of the
/// interval with the largest error, and the estimates of the halves are
/// estimates of those halves, which `rel` tells.
pub open spec fn due(
    rel: spec_fn(i64, i64, RuleEstimate) -> bool,
    scheme: Scheme,
    before: Course,
    step: Bisection,
) -> bool {
    &&& before.goes_on(scheme)
    &&& step.mid == centre(before.ws.worst().a, before.ws.worst().b)
    &&& rel(before.ws.worst().a, step.mid, step.left)
    &&& rel(step.mid, before.ws.worst().b, step.right)
}

/// Every bisection of `steps` was due when it was done.
pub open spec fn legitimate(
    rel: spec_fn(i64, i64, RuleEstimate) -> bool,
    scheme: Scheme,
    start: Course,
    steps: Seq<Bisection>,
) -> bool {
    forall|i: int|
        0 <= i < steps.len() ==> due(
            rel,
            scheme,
            start.followed(scheme, steps.take(i)),
            #[trigger] steps[i],
        )
}

/// An integration that started in the state `start` has run its course with
/// the bisections `steps`: each was legitimate, after the last the
/// integration does not go on, `end` is the working set at the end and `r` the
/// report.
pub open spec fn completed(
    rel: spec_fn(i64, i64, RuleEstimate) -> bool,
    scheme: Scheme,
    start: Course,
    steps: Seq<Bisection>,
    end: WorkingSet,
    r: (Value, i64, u64),
) -> bool {
    let last = start.followed(scheme, steps);
    &&& legitimate(rel, scheme, start, steps)
    &&& !last.goes_on(scheme)
    &&& last.ws == end
    &&& r == last.report(scheme)
}

/// No bisection leaves the state as it is, and one more bisection advances the
/// state that the bisections before it led to.
pub proof fn lemma_followed(start: Course, scheme: Scheme, steps: Seq<Bisection>, step: Bisection)
    ensures
        start.followed(scheme, Seq::<Bisection>::empty()) == start,
        start.followed(scheme, steps.push(step)) == start.followed(scheme, steps).advanced(
            scheme,
            step,
        ),
{
    reveal(Course::followed);
    assert(steps.push(step).drop_last() =~= steps);
}

/// One more bisection that is due keeps a course legitimate.
pub proof fn lemma_course_extended(
    rel: spec_fn(i64, i64, RuleEstimate) -> bool,
    scheme: Scheme,
    start: Course,
    steps: Seq<Bisection>,
    step: Bisection,
)
    requires
        legitimate(rel, scheme, start, steps),
        due(rel, scheme, start.followed(scheme, steps), step),
    ensures
        legitimate(rel, scheme, start, steps.push(step)),
{
    let longer = steps.push(step);
    assert forall|i: int| 0 <= i < longer.len() implies due(
        rel,
        scheme,
        start.followed(scheme, longer.take(i)),
        #[trigger] longer[i],
    ) by {
        if i < steps.len() {
            assert(longer.take(i) =~= steps.take(i));
            assert(longer[i] == steps[i]);
        } else {
            assert(longer.take(i) =~= steps);
        }
    }
}

/// A course that is legitimate for one way of telling estimates is legitimate
/// for every way that admits at least the same estimates.
pub proof fn lemma_course_weakened(
    rel: spec_fn(i64, i64, RuleEstimate) -> bool,
    wider: spec_fn(i64, i64, RuleEstimate) -> bool,
    scheme: Scheme,
    start: Course,
    steps: Seq<Bisection>,
)
    requires
        legitimate(rel, scheme, start, steps),
        forall|a: i64, b: i64, e: RuleEstimate| #[trigger] rel(a, b, e) ==> wider(a, b, e),
    ensures
        legitimate(wider, scheme, start, steps),
{
    assert forall|i: int| 0 <= i < steps.len() implies due(
        wider,
        scheme,
        start.followed(scheme, steps.take(i)),
        #[trigger] steps[i],
    ) by {
        assert(due(rel, scheme, start.followed(scheme, steps.take(i)), steps[i]));
    }
}

} // verus!
