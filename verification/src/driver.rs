//! The adaptive subdivision driver as a state machine.
//!
//! A driver starts in `Init`. `begin` records the estimate of the whole range
//! and moves to `Iterating` or to a final state. While the driver iterates,
//! `plan` either ends the integration or names the interval to bisect, and
//! `commit` records the estimates of the two halves. The decisions rest on
//! exact integer comparisons only.
use vstd::prelude::*;
use crate::fixedpoint::{
    clamp_to_i64,
    clamp_to_u64,
    magnitude,
    magnitude_of,
    midpoint,
    saturate,
    saturate_unsigned,
};
use crate::rule::{centre, RuleEstimate};
use crate::status::{check_tolerances, tolerance, tolerance_of, tolerances_valid, Value};
use crate::workspace::{IntegrationWorkspace, lemma_grown_length, Subinterval, WorkingSet};

verus! {

/// The states of a driver. All but `Init` and `Iterating` are final.
#[derive(Clone, Copy, Debug, PartialEq, Eq, Structural)]
pub enum DriverState {
    Init,
    Iterating,
    Converged,
    RoundoffLimited,
    Divergent,
    IntervalLimitReached,
    SingularBehavior,
}

/// What the caller of a driver has to do next.
#[derive(Clone, Copy, Debug, PartialEq, Eq, Structural)]
pub enum Action {
    /// The integration has ended with this status.
    Finish(Value),
    /// Evaluate the two halves of `parent`, split at `mid`, and commit them.
    Bisect { parent: Subinterval, mid: i64 },
}

/// Number of stagnant bisections after which round-off is held to limit the
/// integration.
pub const STAGNATION_BUDGET: u32 = 6;

/// Number of bisections that raised the error after which round-off is held
/// to limit the integration.
pub const INFLATION_BUDGET: u32 = 20;

/// Number of intervals from which on a bisection that raises the error is
/// counted.
pub const INFLATION_ONSET: usize = 10;

/// The decision state of an adaptive integration.
#[derive(Clone, Copy, Debug, PartialEq, Eq, Structural)]
pub struct Driver {
    pub state: DriverState,
    /// Absolute tolerance.
    pub epsabs: i64,
    /// Relative tolerance.
    pub epsrel: i64,
    /// Largest number of intervals to use.
    pub limit: usize,
    /// Bisections so far that left estimate and error nearly unchanged.
    pub stagnations: u32,
    /// Bisections so far, from the onset on, that raised the error.
    pub inflations: u32,
}

/// The estimate of the integral that a working set stands for.
pub open spec fn reported_result(ws: WorkingSet) -> int {
    clamp_to_i64(ws.total_result())
}

/// The estimate of the error that a working set stands for.
pub open spec fn reported_error(ws: WorkingSet) -> int {
    clamp_to_u64(ws.total_error())
}

/// The error estimate that the working set stands for is within the tolerance
/// for its estimate of the integral.
pub open spec fn within_tolerance(epsabs: i64, epsrel: i64, ws: WorkingSet) -> bool {
    reported_error(ws) <= tolerance_of(epsabs, epsrel, reported_result(ws) as i64)
}

/// The level of the children of an interval of level `l`.
pub open spec fn next_level(l: usize) -> usize {
    if l < usize::MAX {
        (l + 1) as usize
    } else {
        l
    }
}

/// The lower half of `parent`, split at `mid`, with its estimates.
pub open spec fn left_child(parent: Subinterval, mid: i64, e: RuleEstimate) -> Subinterval {
    Subinterval {
        a: parent.a,
        b: mid,
        result: e.result,
        error: e.abserr,
        level: next_level(parent.level),
    }
}

/// The upper half of `parent`, split at `mid`, with its estimates.
pub open spec fn right_child(parent: Subinterval, mid: i64, e: RuleEstimate) -> Subinterval {
    Subinterval {
        a: mid,
        b: parent.b,
        result: e.result,
        error: e.abserr,
        level: next_level(parent.level),
    }
}

/// Both error estimates were scaled down from the deviation, so they say
/// something about convergence.
pub open spec fn reliable(left: RuleEstimate, right: RuleEstimate) -> bool {
    left.resasc != left.abserr && right.resasc != right.abserr
}

/// The bisection changed the estimate by no more than a hundred-thousandth of
/// itself and left at least 99 percent of the error.
pub open spec fn stagnant(parent: Subinterval, left: RuleEstimate, right: RuleEstimate) -> bool {
    let area = left.result + right.result;
    let error = left.abserr + right.abserr;
    &&& reliable(left, right)
    &&& 100000 * magnitude_of(parent.result - area) <= magnitude_of(area)
    &&& 100 * error >= 99 * parent.error
}

/// The bisection raised the error, with `size` intervals in use before it.
pub open spec fn inflating(
    size: nat,
    parent: Subinterval,
    left: RuleEstimate,
    right: RuleEstimate,
) -> bool {
    &&& reliable(left, right)
    &&& size >= INFLATION_ONSET
    &&& left.abserr + right.abserr > parent.error
}

/// The partial sums look divergent: the error estimate exceeds the magnitude of
/// the estimate, or the extrapolated estimate `ext` and the estimate `area`
/// differ by more than a factor of a hundred or in sign.
pub open spec fn diverging(area: int, errsum: int, ext: int) -> bool {
    ||| errsum > magnitude_of(area)
    ||| (area > 0 && (100 * ext < area || ext > 100 * area))
    ||| (area < 0 && (100 * ext > area || ext < 100 * area))
}

/// True when the partial sums look divergent.
pub fn is_diverging(area: i64, errsum: u64, ext: i64) -> (r: bool)
    ensures
        r == diverging(area as int, errsum as int, ext as int),
{
    let wide_area = area as i128;
    let wide_ext = ext as i128;
    errsum > magnitude(area) || (area > 0 && (100 * wide_ext < wide_area || wide_ext > 100
        * wide_area)) || (area < 0 && (100 * wide_ext > wide_area || wide_ext < 100 * wide_area))
}

/// The limit that an integration of `parts` parts works under: the first
/// estimate of every part is always made, so a limit below the number of parts
/// stands for that number.
pub open spec fn served(limit: usize, parts: int) -> usize {
    if limit >= parts {
        limit
    } else {
        parts as usize
    }
}

/// The limit that an integration of `parts` parts works under.
pub fn serve(limit: usize, parts: usize) -> (r: usize)
    ensures
        r == served(limit, parts as int),
{
    if limit >= parts {
        limit
    } else {
        parts
    }
}

impl Driver {
    /// The invariant of a driver: it was built from valid arguments, and while
    /// it iterates neither budget is used up.
    pub open spec fn wf(self) -> bool {
        &&& self.limit >= 1
        &&& tolerances_valid(self.epsabs, self.epsrel)
        &&& self.state is Iterating ==> self.stagnations < STAGNATION_BUDGET && self.inflations
            < INFLATION_BUDGET
    }

    /// The state is final.
    pub open spec fn finished(self) -> bool {
        !(self.state is Init) && !(self.state is Iterating)
    }

    /// The state after estimates were recorded in `ws`: converged when the total
    /// error is within tolerance, else limited by round-off when a budget is
    /// used up, else iterating.
    pub open spec fn settled(self, ws: WorkingSet) -> DriverState {
        if within_tolerance(self.epsabs, self.epsrel, ws) {
            DriverState::Converged
        } else if self.stagnations >= STAGNATION_BUDGET || self.inflations >= INFLATION_BUDGET {
            DriverState::RoundoffLimited
        } else {
            DriverState::Iterating
        }
    }

    /// The driver after `begin`, with `ws` the working set that holds the first
    /// estimate.
    pub open spec fn begun(self, ws: WorkingSet) -> Driver {
        Driver { state: self.settled(ws), ..self }
    }

    /// What an iterating driver does next with the working set `ws`.
    pub open spec fn plan_of(self, ws: WorkingSet) -> Action {
        match self.state {
            DriverState::Converged => Action::Finish(Value::Success),
            DriverState::RoundoffLimited => Action::Finish(Value::RoundoffLimited),
            DriverState::Divergent => Action::Finish(Value::Divergent),
            DriverState::IntervalLimitReached => Action::Finish(Value::IntervalLimitReached),
            DriverState::SingularBehavior => Action::Finish(Value::SingularBehavior),
            _ => if ws.active.len() >= self.limit {
                Action::Finish(Value::IntervalLimitReached)
            } else if ws.worst().b - ws.worst().a < 2 {
                Action::Finish(Value::SingularBehavior)
            } else {
                Action::Bisect {
                    parent: ws.worst(),
                    mid: centre(ws.worst().a, ws.worst().b) as i64,
                }
            },
        }
    }

    /// The driver after `plan`.
    pub open spec fn planned(self, ws: WorkingSet) -> Driver {
        match self.plan_of(ws) {
            Action::Finish(Value::IntervalLimitReached) => Driver {
                state: DriverState::IntervalLimitReached,
                ..self
            },
            Action::Finish(Value::SingularBehavior) => Driver {
                state: DriverState::SingularBehavior,
                ..self
            },
            _ => self,
        }
    }

    /// The driver after the worst interval of `ws` was bisected at `mid` into
    /// halves with the estimates `left` and `right`.
    pub open spec fn committed(
        self,
        ws: WorkingSet,
        mid: i64,
        left: RuleEstimate,
        right: RuleEstimate,
    ) -> Driver {
        let parent = ws.worst();
        let counted = Driver {
            stagnations: if stagnant(parent, left, right) {
                (self.stagnations + 1) as u32
            } else {
                self.stagnations
            },
            inflations: if inflating(ws.active.len(), parent, left, right) {
                (self.inflations + 1) as u32
            } else {
                self.inflations
            },
            ..self
        };
        Driver {
            state: counted.settled(
                ws.bisected(left_child(parent, mid, left), right_child(parent, mid, right)),
            ),
            ..counted
        }
    }

    /// The driver after an integration that failed has been looked at for
    /// signs of divergence: where divergence is watched for and the sums look
    /// divergent, the failure is divergence.
    pub open spec fn concluded(self, watch: bool, area: i64, errsum: u64, ext: i64) -> Driver {
        if watch && diverging(area as int, errsum as int, ext as int) {
            Driver { state: DriverState::Divergent, ..self }
        } else {
            self
        }
    }

    /// The status that a final state stands for.
    pub open spec fn status_of(self) -> Value {
        match self.state {
            DriverState::Converged => Value::Success,
            DriverState::RoundoffLimited => Value::RoundoffLimited,
            DriverState::Divergent => Value::Divergent,
            DriverState::IntervalLimitReached => Value::IntervalLimitReached,
            DriverState::SingularBehavior => Value::SingularBehavior,
            _ => Value::BadArgument,
        }
    }

    /// A driver in its initial state, or `None` when an argument is refused:
    /// the tolerances cannot be met, `limit` exceeds `capacity`, or the
    /// capacity is zero. A limit of zero stands for one.
    pub fn new(epsabs: i64, epsrel: i64, limit: usize, capacity: usize) -> (r: Option<Driver>)
        ensures
            r is Some <==> tolerances_valid(epsabs, epsrel) && limit <= capacity && capacity >= 1,
            r matches Some(d) ==> d == (Driver {
                state: DriverState::Init,
                epsabs,
                epsrel,
                limit: served(limit, 1),
                stagnations: 0,
                inflations: 0,
            }) && d.wf(),
    {
        if !check_tolerances(epsabs, epsrel) || capacity == 0 || limit > capacity {
            None
        } else {
            let limit = serve(limit, 1);
            Some(
                Driver {
                    state: DriverState::Init,
                    epsabs,
                    epsrel,
                    limit,
                    stagnations: 0,
                    inflations: 0,
                },
            )
        }
    }

    /// True when the total error of `ws` is within the tolerance for its total
    /// estimate.
    pub fn tolerance_met(&self, ws: &IntegrationWorkspace) -> (r: bool)
        requires
            ws.wf(),
        ensures
            r == within_tolerance(self.epsabs, self.epsrel, ws@),
    {
        (saturate_unsigned(ws.total_error()) as u128) <= tolerance(
            self.epsabs,
            self.epsrel,
            saturate(ws.total_result()),
        )
    }

    /// The state after estimates were recorded in `ws`.
    pub fn settle(&self, ws: &IntegrationWorkspace) -> (r: DriverState)
        requires
            ws.wf(),
        ensures
            r == self.settled(ws@),
    {
        if self.tolerance_met(ws) {
            DriverState::Converged
        } else if self.stagnations >= STAGNATION_BUDGET || self.inflations >= INFLATION_BUDGET {
            DriverState::RoundoffLimited
        } else {
            DriverState::Iterating
        }
    }

    /// Seeds the workspace with `[a, b]`, records the estimate `first` of the
    /// whole range, and leaves the initial state.
    pub fn begin(&mut self, ws: &mut IntegrationWorkspace, a: i64, b: i64, first: RuleEstimate)
        requires
            old(self).wf(),
            old(self).state is Init,
            old(ws)@.capacity >= 1,
            a <= b,
        ensures
            final(ws).wf(),
            final(ws)@ == old(ws)@.reset(a, b).revised(
                Subinterval { a, b, result: first.result, error: first.abserr, level: 0 },
            ),
            final(ws)@.active.len() == 1,
            *final(self) == old(self).begun(final(ws)@),
            final(self).wf(),
            !(final(self).state is Init),
    {
        ws.reset(a, b);
        ws.set_initial_result(first.result, first.abserr);
        self.state = self.settle(ws);
    }

    /// Leaves the initial state with a workspace that was seeded with estimates
    /// already.
    pub fn resume(&mut self, ws: &IntegrationWorkspace)
        requires
            old(self).wf(),
            old(self).state is Init,
            ws.wf(),
        ensures
            *final(self) == old(self).begun(ws@),
            final(self).wf(),
            !(final(self).state is Init),
    {
        self.state = self.settle(ws);
    }

    /// Decides what comes next: the end of the integration, or the bisection of
    /// the interval with the largest error. The integration ends when the state
    /// is final, when the limit on the number of intervals is reached, or when
    /// the interval with the largest error is less than two quanta wide.
    pub fn plan(&mut self, ws: &IntegrationWorkspace) -> (r: Action)
        requires
            old(self).wf(),
            !(old(self).state is Init),
            ws.wf(),
            ws@.active.len() >= 1,
        ensures
            r == old(self).plan_of(ws@),
            *final(self) == old(self).planned(ws@),
            final(self).wf(),
            r is Finish <==> final(self).finished(),
            r matches Action::Finish(v) ==> v == final(self).status_of(),
            r matches Action::Bisect { parent, mid } ==> parent.a < mid < parent.b
                && ws@.active.len() < old(self).limit,
    {
        match self.state {
            DriverState::Converged => Action::Finish(Value::Success),
            DriverState::RoundoffLimited => Action::Finish(Value::RoundoffLimited),
            DriverState::Divergent => Action::Finish(Value::Divergent),
            DriverState::IntervalLimitReached => Action::Finish(Value::IntervalLimitReached),
            DriverState::SingularBehavior => Action::Finish(Value::SingularBehavior),
            _ => {
                let worst = ws.worst();
                if ws.size() >= self.limit {
                    self.state = DriverState::IntervalLimitReached;
                    Action::Finish(Value::IntervalLimitReached)
                } else if (worst.b as i128) - (worst.a as i128) < 2 {
                    self.state = DriverState::SingularBehavior;
                    Action::Finish(Value::SingularBehavior)
                } else {
                    Action::Bisect { parent: worst, mid: midpoint(worst.a, worst.b) }
                }
            },
        }
    }

    /// Records the estimates of the two halves of the interval with the largest
    /// error, split at `mid`: the halves replace it in the workspace, the
    /// round-off counters are brought up to date, and the state is settled.
    pub fn commit(
        &mut self,
        ws: &mut IntegrationWorkspace,
        mid: i64,
        left: RuleEstimate,
        right: RuleEstimate,
    )
        requires
            old(self).wf(),
            old(self).state is Iterating,
            old(ws).wf(),
            1 <= old(ws)@.active.len() < old(self).limit <= old(ws)@.capacity,
            old(ws)@.worst().a <= mid <= old(ws)@.worst().b,
        ensures
            final(ws).wf(),
            final(ws)@ == old(ws)@.bisected(
                left_child(old(ws)@.worst(), mid, left),
                right_child(old(ws)@.worst(), mid, right),
            ),
            final(ws)@.active.len() == old(ws)@.active.len() + 1,
            *final(self) == old(self).committed(old(ws)@, mid, left, right),
            final(self).wf(),
            !(final(self).state is Init),
    {
        let parent = ws.worst();
        let size = ws.size();
        let level = if parent.level < usize::MAX {
            parent.level + 1
        } else {
            parent.level
        };
        let child1 = Subinterval {
            a: parent.a,
            b: mid,
            result: left.result,
            error: left.abserr,
            level,
        };
        let child2 = Subinterval {
            a: mid,
            b: parent.b,
            result: right.result,
            error: right.abserr,
            level,
        };
        let is_reliable = left.resasc != left.abserr && right.resasc != right.abserr;
        let area: i128 = (left.result as i128) + (right.result as i128);
        let error: u128 = (left.abserr as u128) + (right.abserr as u128);
        let delta: i128 = (parent.result as i128) - area;
        let delta_size: i128 = if delta >= 0 {
            delta
        } else {
            -delta
        };
        let area_size: i128 = if area >= 0 {
            area
        } else {
            -area
        };
        if is_reliable && 100000 * delta_size <= area_size && 100 * error >= 99 * (
        parent.error as u128) {
            self.stagnations = self.stagnations + 1;
        }
        if is_reliable && size >= INFLATION_ONSET && error > parent.error as u128 {
            self.inflations = self.inflations + 1;
        }
        proof {
            ws.lemma_view_wf();
            lemma_grown_length(ws@, child1, child2);
        }
        let evicted = ws.update(child1, child2);
        self.state = self.settle(ws);
    }

    /// Looks at an integration that ended without meeting the tolerance for
    /// signs of divergence, with `area` and `errsum` the estimates at the end
    /// and `ext` the extrapolated estimate (or `area` where there is none), and
    /// returns the status. Where divergence is watched for and the sums look
    /// divergent, the state becomes `Divergent`.
    pub fn conclude(&mut self, watch: bool, area: i64, errsum: u64, ext: i64) -> (r: Value)
        requires
            old(self).wf(),
            old(self).state is RoundoffLimited || old(self).state is IntervalLimitReached || old(
                self,
            ).state is SingularBehavior,
        ensures
            *final(self) == old(self).concluded(watch, area, errsum, ext),
            r == final(self).status_of(),
            final(self).wf(),
            final(self).finished(),
            !(r is Success),
    {
        if watch && is_diverging(area, errsum, ext) {
            self.state = DriverState::Divergent;
        }
        match self.state {
            DriverState::RoundoffLimited => Value::RoundoffLimited,
            DriverState::IntervalLimitReached => Value::IntervalLimitReached,
            DriverState::SingularBehavior => Value::SingularBehavior,
            _ => Value::Divergent,
        }
    }
}

} // verus!
