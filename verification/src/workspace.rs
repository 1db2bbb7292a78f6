//! The working set of an adaptive integration: a bounded collection of
//! subintervals kept in order of their error estimates.
//!
//! The intervals are stored by ascending error estimate, and an interval that
//! enters is placed behind every interval whose estimate does not exceed its
//! own. The interval with the largest estimate is therefore the last one, and
//! among equal estimates the one that entered last. The intervals with the
//! smallest estimate stand first; when the workspace overflows, the one of them
//! that entered last leaves, so that a newcomer never drives out an interval
//! that is no better than itself.
use vstd::prelude::*;

verus! {

/// One subinterval of the integration range with the estimates made on it.
#[derive(Clone, Copy, Debug, PartialEq, Eq, Structural)]
pub struct Subinterval {
    /// Lower bound.
    pub a: i64,
    /// Upper bound.
    pub b: i64,
    /// Estimate of the integral over `[a, b]`.
    pub result: i64,
    /// Estimate of the absolute error of `result`.
    pub error: u64,
    /// Number of bisections (or rule promotions) that led to this interval.
    pub level: usize,
}

impl Subinterval {
    /// The bounds are ordered.
    pub open spec fn valid(self) -> bool {
        self.a <= self.b
    }
}

/// The interval that a freshly reset working set holds: the whole range with
/// zero estimates.
pub open spec fn seed(a: i64, b: i64) -> Subinterval {
    Subinterval { a, b, result: 0, error: 0, level: 0 }
}

/// Sum of the error estimates of a sequence of intervals.
pub open spec fn sum_errors(s: Seq<Subinterval>) -> int
    decreases s.len(),
{
    if s.len() == 0 {
        0
    } else {
        sum_errors(s.drop_last()) + s.last().error
    }
}

/// Sum of the integral estimates of a sequence of intervals.
pub open spec fn sum_results(s: Seq<Subinterval>) -> int
    decreases s.len(),
{
    if s.len() == 0 {
        0
    } else {
        sum_results(s.drop_last()) + s.last().result
    }
}

/// The error estimates never decrease along the sequence.
pub open spec fn ascending(s: Seq<Subinterval>) -> bool {
    forall|i: int, j: int| 0 <= i <= j < s.len() ==> s[i].error <= s[j].error
}

/// The place at which an interval with error estimate `e` enters an ascending
/// sequence: behind the last interval whose estimate does not exceed `e`.
pub open spec fn rank_of(s: Seq<Subinterval>, e: u64) -> int
    decreases s.len(),
{
    if s.len() == 0 || s.last().error <= e {
        s.len() as int
    } else {
        rank_of(s.drop_last(), e)
    }
}

/// The sequence after `x` has entered it.
pub open spec fn placed(s: Seq<Subinterval>, x: Subinterval) -> Seq<Subinterval> {
    s.insert(rank_of(s, x.error), x)
}

/// The place of the interval that leaves an ascending sequence first: among
/// the intervals with the smallest error estimate, the one that entered last.
pub open spec fn leaving_place(s: Seq<Subinterval>) -> int
    recommends
        s.len() >= 1,
{
    rank_of(s, s.first().error) - 1
}

/// The interval that leaves an ascending sequence first.
pub open spec fn leaving(s: Seq<Subinterval>) -> Subinterval
    recommends
        s.len() >= 1,
{
    s[leaving_place(s)]
}

/// The sequence after the interval that leaves first has left.
pub open spec fn thinned(s: Seq<Subinterval>) -> Seq<Subinterval>
    recommends
        s.len() >= 1,
{
    s.remove(leaving_place(s))
}

/// The larger of two levels.
pub open spec fn deeper(x: nat, y: nat) -> nat {
    if x >= y {
        x
    } else {
        y
    }
}

/// The mathematical content of a working set.
pub struct WorkingSet {
    /// Largest number of intervals that may be active at once.
    pub capacity: nat,
    /// The active intervals, by ascending error estimate.
    pub active: Seq<Subinterval>,
    /// The largest level of any interval that was ever active since the last
    /// reset.
    pub maximum_level: nat,
}

impl WorkingSet {
    /// The invariant of a working set.
    pub open spec fn wf(self) -> bool {
        &&& self.capacity >= 1
        &&& self.active.len() <= self.capacity
        &&& ascending(self.active)
        &&& all_valid(self.active)
    }

    /// Sum of the error estimates of the active intervals.
    pub open spec fn total_error(self) -> int {
        sum_errors(self.active)
    }

    /// Sum of the integral estimates of the active intervals.
    pub open spec fn total_result(self) -> int {
        sum_results(self.active)
    }

    /// The working set seeded with the single interval `[a, b]`.
    pub open spec fn reset(self, a: i64, b: i64) -> WorkingSet {
        WorkingSet { capacity: self.capacity, active: seq![seed(a, b)], maximum_level: 0 }
    }

    /// The interval with the largest error estimate; among equal estimates the
    /// one that entered last.
    pub open spec fn worst(self) -> Subinterval
        recommends
            self.active.len() >= 1,
    {
        self.active.last()
    }

    /// The active intervals after the worst one has been replaced by `x`,
    /// before the capacity is looked at.
    pub open spec fn swapped(self, x: Subinterval) -> Seq<Subinterval> {
        placed(self.active.drop_last(), x)
    }

    /// The active intervals after the worst one has been replaced by its two
    /// children, before the capacity is looked at.
    pub open spec fn grown(self, child1: Subinterval, child2: Subinterval) -> Seq<Subinterval> {
        placed(placed(self.active.drop_last(), child1), child2)
    }

    /// The working set after the worst interval has been re-estimated as `x`.
    pub open spec fn revised(self, x: Subinterval) -> WorkingSet {
        WorkingSet {
            capacity: self.capacity,
            active: self.swapped(x),
            maximum_level: deeper(self.maximum_level, x.level as nat),
        }
    }

    /// The working set after its worst interval has been taken out.
    pub open spec fn reduced(self) -> WorkingSet
        recommends
            self.active.len() >= 1,
    {
        WorkingSet { active: self.active.drop_last(), ..self }
    }

    /// The working set without any interval.
    pub open spec fn cleared(self) -> WorkingSet {
        WorkingSet {
            capacity: self.capacity,
            active: Seq::<Subinterval>::empty(),
            maximum_level: 0,
        }
    }

    /// The interval that leaves when `x` enters: none while there is room, else
    /// the one with the smallest error estimate, and among several of these the
    /// one that entered last, which may be `x` itself.
    pub open spec fn displaced(self, x: Subinterval) -> Option<Subinterval> {
        if self.active.len() < self.capacity {
            None
        } else {
            Some(leaving(placed(self.active, x)))
        }
    }

    /// The working set after `x` has entered it.
    pub open spec fn entered(self, x: Subinterval) -> WorkingSet {
        WorkingSet {
            capacity: self.capacity,
            active: if self.active.len() < self.capacity {
                placed(self.active, x)
            } else {
                thinned(placed(self.active, x))
            },
            maximum_level: deeper(self.maximum_level, x.level as nat),
        }
    }

    /// The interval that leaves the working set when the worst interval is
    /// replaced by its two children: none while there is room, else the one
    /// with the smallest error estimate, and among several of these the one
    /// that entered last. A child whose error estimate does not exceed the
    /// smallest estimate in the set is therefore the one that leaves.
    pub open spec fn evicted(self, child1: Subinterval, child2: Subinterval) -> Option<
        Subinterval,
    > {
        let grown = self.grown(child1, child2);
        if grown.len() <= self.capacity {
            None
        } else {
            Some(leaving(grown))
        }
    }

    /// The working set after the worst interval has been replaced by its two
    /// children.
    pub open spec fn bisected(self, child1: Subinterval, child2: Subinterval) -> WorkingSet {
        let grown = self.grown(child1, child2);
        WorkingSet {
            capacity: self.capacity,
            active: if grown.len() <= self.capacity {
                grown
            } else {
                thinned(grown)
            },
            maximum_level: deeper(
                deeper(self.maximum_level, child1.level as nat),
                child2.level as nat,
            ),
        }
    }
}

/// Entering an interval at any place adds its estimates to the sums.
pub proof fn lemma_sums_after_insert(s: Seq<Subinterval>, p: int, x: Subinterval)
    requires
        0 <= p <= s.len(),
    ensures
        sum_errors(s.insert(p, x)) == sum_errors(s) + x.error,
        sum_results(s.insert(p, x)) == sum_results(s) + x.result,
    decreases s.len(),
{
    let t = s.insert(p, x);
    if p == s.len() {
        assert(t.drop_last() =~= s);
    } else {
        assert(t.drop_last() =~= s.drop_last().insert(p, x));
        assert(t.last() == s.last());
        lemma_sums_after_insert(s.drop_last(), p, x);
    }
}

/// Taking an interval out at any place takes its estimates out of the sums.
pub proof fn lemma_sums_after_remove(s: Seq<Subinterval>, p: int)
    requires
        0 <= p < s.len(),
    ensures
        sum_errors(s.remove(p)) == sum_errors(s) - s[p].error,
        sum_results(s.remove(p)) == sum_results(s) - s[p].result,
    decreases s.len(),
{
    let t = s.remove(p);
    if p == s.len() - 1 {
        assert(t =~= s.drop_last());
    } else {
        assert(t.drop_last() =~= s.drop_last().remove(p));
        assert(t.last() == s.last());
        lemma_sums_after_remove(s.drop_last(), p);
    }
}

/// The sums lie within the range that the number of intervals allows.
pub proof fn lemma_sums_bounded(s: Seq<Subinterval>)
    ensures
        0 <= sum_errors(s) <= s.len() * u64::MAX,
        s.len() * i64::MIN <= sum_results(s) <= s.len() * i64::MAX,
    decreases s.len(),
{
    if s.len() > 0 {
        lemma_sums_bounded(s.drop_last());
        assert(s.drop_last().len() == s.len() - 1);
        assert((s.len() - 1) * u64::MAX + u64::MAX == s.len() * u64::MAX) by (nonlinear_arith);
        assert((s.len() - 1) * i64::MAX + i64::MAX == s.len() * i64::MAX) by (nonlinear_arith);
        assert((s.len() - 1) * i64::MIN + i64::MIN == s.len() * i64::MIN) by (nonlinear_arith);
    }
}

/// In an ascending sequence the rank of `e` parts the intervals whose estimate
/// does not exceed `e` from those whose estimate does.
pub proof fn lemma_rank_parts(s: Seq<Subinterval>, e: u64)
    requires
        ascending(s),
    ensures
        0 <= rank_of(s, e) <= s.len(),
        forall|i: int| 0 <= i < rank_of(s, e) ==> (#[trigger] s[i]).error <= e,
        forall|i: int| rank_of(s, e) <= i < s.len() ==> (#[trigger] s[i]).error > e,
    decreases s.len(),
{
    if s.len() == 0 || s.last().error <= e {
    } else {
        let t = s.drop_last();
        assert(ascending(t)) by {
            assert forall|i: int, j: int| 0 <= i <= j < t.len() implies t[i].error
                <= t[j].error by {
                assert(t[i] == s[i] && t[j] == s[j]);
            }
        }
        lemma_rank_parts(t, e);
        assert forall|i: int| 0 <= i < rank_of(s, e) implies (#[trigger] s[i]).error <= e by {
            assert(s[i] == t[i]);
        }
        assert forall|i: int| rank_of(s, e) <= i < s.len() implies (#[trigger] s[i]).error
            > e by {
            if i < t.len() {
                assert(s[i] == t[i]);
            }
        }
    }
}

/// An ascending sequence stays ascending when an interval enters it, and the
/// interval stands behind every interval whose estimate does not exceed its own.
pub proof fn lemma_placed_ascending(s: Seq<Subinterval>, x: Subinterval)
    requires
        ascending(s),
    ensures
        ascending(placed(s, x)),
        placed(s, x).len() == s.len() + 1,
        placed(s, x)[rank_of(s, x.error)] == x,
        forall|i: int|
            rank_of(s, x.error) < i < placed(s, x).len() ==> (#[trigger] placed(s, x)[i]).error
                > x.error,
{
    lemma_rank_parts(s, x.error);
    let p = rank_of(s, x.error);
    let t = placed(s, x);
    assert forall|i: int, j: int| 0 <= i <= j < t.len() implies t[i].error <= t[j].error by {
        if i < p {
            assert(t[i] == s[i]);
        } else if i > p {
            assert(t[i] == s[i - 1]);
        }
        if j < p {
            assert(t[j] == s[j]);
        } else if j > p {
            assert(t[j] == s[j - 1]);
        }
    }
    assert forall|i: int| p < i < t.len() implies (#[trigger] t[i]).error > x.error by {
        assert(t[i] == s[i - 1]);
    }
}

/// Taking an interval out of an ascending sequence leaves it ascending.
pub proof fn lemma_ascending_removed(s: Seq<Subinterval>, p: int)
    requires
        ascending(s),
        0 <= p < s.len(),
    ensures
        ascending(s.remove(p)),
{
    let u = s.remove(p);
    assert forall|i: int, j: int| 0 <= i <= j < u.len() implies u[i].error <= u[j].error by {
        let si = if i < p {
            i
        } else {
            i + 1
        };
        let sj = if j < p {
            j
        } else {
            j + 1
        };
        assert(u[i] == s[si] && u[j] == s[sj]);
    }
}

/// Dropping the last interval of an ascending sequence, or the one that leaves
/// first, leaves it ascending.
pub proof fn lemma_ascending_parts(s: Seq<Subinterval>)
    requires
        ascending(s),
        s.len() >= 1,
    ensures
        ascending(s.drop_last()),
        ascending(thinned(s)),
{
    assert(s.drop_last() =~= s.remove(s.len() - 1));
    lemma_ascending_removed(s, s.len() - 1);
    lemma_leaving(s);
    lemma_ascending_removed(s, leaving_place(s));
}

/// The interval that leaves an ascending sequence first has the smallest error
/// estimate of all, and every interval behind it has a larger one.
pub proof fn lemma_leaving(s: Seq<Subinterval>)
    requires
        ascending(s),
        s.len() >= 1,
    ensures
        0 <= leaving_place(s) < s.len(),
        leaving(s).error == s.first().error,
        forall|i: int| 0 <= i < s.len() ==> leaving(s).error <= (#[trigger] s[i]).error,
        forall|i: int| leaving_place(s) < i < s.len() ==> leaving(s).error < (#[trigger] s[i]).error,
        thinned(s).len() == s.len() - 1,
        forall|i: int|
            0 <= i < thinned(s).len() ==> (#[trigger] thinned(s)[i]) == s[if i < leaving_place(s) {
                i
            } else {
                i + 1
            }],
{
    lemma_rank_parts(s, s.first().error);
    let p = leaving_place(s);
    if rank_of(s, s.first().error) == 0 {
        assert(s[0].error > s.first().error);
    }
    assert(s[p].error <= s.first().error);
    assert(s[0].error <= s[p].error);
}

/// Every interval of `placed(s, x)` is `x` or an interval of `s`.
pub proof fn lemma_placed_members(s: Seq<Subinterval>, x: Subinterval)
    requires
        ascending(s),
    ensures
        forall|i: int|
            0 <= i < placed(s, x).len() ==> (#[trigger] placed(s, x)[i]) == x || exists|j: int|
                0 <= j < s.len() && s[j] == placed(s, x)[i],
{
    lemma_rank_parts(s, x.error);
    let p = rank_of(s, x.error);
    let t = placed(s, x);
    assert forall|i: int| 0 <= i < t.len() implies (#[trigger] t[i]) == x || exists|j: int|
        0 <= j < s.len() && s[j] == t[i] by {
        if i < p {
            assert(s[i] == t[i]);
        } else if i > p {
            assert(s[i - 1] == t[i]);
        }
    }
}

/// Every interval of the sequence has ordered bounds.
pub open spec fn all_valid(s: Seq<Subinterval>) -> bool {
    forall|i: int| 0 <= i < s.len() ==> (#[trigger] s[i]).valid()
}

/// What entering an interval does to an ascending sequence of valid intervals.
pub proof fn lemma_enter(s: Seq<Subinterval>, x: Subinterval)
    requires
        ascending(s),
        all_valid(s),
        x.valid(),
    ensures
        ascending(placed(s, x)),
        all_valid(placed(s, x)),
        placed(s, x).len() == s.len() + 1,
        sum_errors(placed(s, x)) == sum_errors(s) + x.error,
        sum_results(placed(s, x)) == sum_results(s) + x.result,
{
    lemma_placed_ascending(s, x);
    lemma_placed_members(s, x);
    lemma_rank_parts(s, x.error);
    lemma_sums_after_insert(s, rank_of(s, x.error), x);
    let t = placed(s, x);
    assert forall|i: int| 0 <= i < t.len() implies (#[trigger] t[i]).valid() by {
        if t[i] != x {
            let j = choose|j: int| 0 <= j < s.len() && s[j] == t[i];
            assert(s[j].valid());
        }
    }
}

/// What leaving does to an ascending sequence of valid intervals: when the
/// last interval leaves, and when the one leaves that leaves first.
pub proof fn lemma_leave(s: Seq<Subinterval>)
    requires
        ascending(s),
        all_valid(s),
        s.len() >= 1,
    ensures
        ascending(s.drop_last()),
        all_valid(s.drop_last()),
        sum_errors(s.drop_last()) == sum_errors(s) - s.last().error,
        sum_results(s.drop_last()) == sum_results(s) - s.last().result,
        ascending(thinned(s)),
        all_valid(thinned(s)),
        thinned(s).len() == s.len() - 1,
        sum_errors(thinned(s)) == sum_errors(s) - leaving(s).error,
        sum_results(thinned(s)) == sum_results(s) - leaving(s).result,
{
    lemma_ascending_parts(s);
    lemma_leaving(s);
    lemma_sums_after_remove(s, leaving_place(s));
    lemma_sums_after_remove(s, s.len() - 1);
    assert(s.drop_last() =~= s.remove(s.len() - 1));
    let t = s.drop_last();
    assert forall|i: int| 0 <= i < t.len() implies (#[trigger] t[i]).valid() by {
        assert(t[i] == s[i]);
    }
    let u = thinned(s);
    assert forall|i: int| 0 <= i < u.len() implies (#[trigger] u[i]).valid() by {
        assert(u[i] == s[if i < leaving_place(s) {
            i
        } else {
            i + 1
        }]);
    }
}

/// The sums over as many intervals as a `usize` can count, and one more, fit
/// in 128 bits.
pub proof fn lemma_sums_fit(s: Seq<Subinterval>)
    requires
        s.len() <= 0x1_0000_0000_0000_0000,
    ensures
        0 <= sum_errors(s) <= u128::MAX,
        i128::MIN <= sum_results(s) <= i128::MAX,
{
    lemma_sums_bounded(s);
    assert(s.len() * u64::MAX <= 0x1_0000_0000_0000_0000 * u64::MAX) by (nonlinear_arith)
        requires
            s.len() <= 0x1_0000_0000_0000_0000,
    ;
    assert(s.len() * i64::MAX <= 0x1_0000_0000_0000_0000 * i64::MAX) by (nonlinear_arith)
        requires
            s.len() <= 0x1_0000_0000_0000_0000,
    ;
    assert(s.len() * i64::MIN >= 0x1_0000_0000_0000_0000 * i64::MIN) by (nonlinear_arith)
        requires
            s.len() <= 0x1_0000_0000_0000_0000,
    ;
}

/// Every interval of the sequence lies inside `[lo, hi]`.
pub open spec fn all_within(s: Seq<Subinterval>, lo: i64, hi: i64) -> bool {
    forall|i: int| 0 <= i < s.len() ==> lo <= (#[trigger] s[i]).a && s[i].b <= hi
}

/// A working set that holds one interval: its sums are the estimates of that
/// interval.
pub proof fn lemma_single(x: Subinterval)
    ensures
        sum_errors(seq![x]) == x.error,
        sum_results(seq![x]) == x.result,
        placed(Seq::<Subinterval>::empty(), x) =~= seq![x],
        placed(seq![x].drop_last(), x) =~= seq![x],
{
    let s = seq![x];
    assert(s.drop_last().len() == 0);
    assert(sum_errors(s.drop_last()) == 0);
    assert(sum_results(s.drop_last()) == 0);
    assert(s.last() == x);
}

/// Intervals inside `[lo, hi]` stay inside when the worst one is replaced by
/// intervals inside `[lo, hi]`.
pub proof fn lemma_within_kept(
    ws: WorkingSet,
    child1: Subinterval,
    child2: Subinterval,
    lo: i64,
    hi: i64,
)
    requires
        ws.wf(),
        ws.active.len() >= 1,
        all_within(ws.active, lo, hi),
        lo <= child1.a && child1.b <= hi,
        lo <= child2.a && child2.b <= hi,
    ensures
        all_within(ws.swapped(child1), lo, hi),
        all_within(ws.grown(child1, child2), lo, hi),
        all_within(ws.bisected(child1, child2).active, lo, hi),
{
    let s0 = ws.active.drop_last();
    lemma_ascending_parts(ws.active);
    lemma_placed_ascending(s0, child1);
    lemma_placed_members(s0, child1);
    let s1 = placed(s0, child1);
    assert forall|i: int| 0 <= i < s1.len() implies lo <= (#[trigger] s1[i]).a && s1[i].b
        <= hi by {
        if s1[i] != child1 {
            let j = choose|j: int| 0 <= j < s0.len() && s0[j] == s1[i];
            assert(s0[j] == ws.active[j]);
        }
    }
    lemma_placed_ascending(s1, child2);
    lemma_placed_members(s1, child2);
    let s2 = placed(s1, child2);
    assert forall|i: int| 0 <= i < s2.len() implies lo <= (#[trigger] s2[i]).a && s2[i].b
        <= hi by {
        if s2[i] != child2 {
            let j = choose|j: int| 0 <= j < s1.len() && s1[j] == s2[i];
            assert(lo <= s1[j].a);
        }
    }
    lemma_leaving(s2);
    let s3 = thinned(s2);
    assert forall|i: int| 0 <= i < s3.len() implies lo <= (#[trigger] s3[i]).a && s3[i].b
        <= hi by {
        assert(s3[i] == s2[if i < leaving_place(s2) {
            i
        } else {
            i + 1
        }]);
    }
}

/// Intervals inside `[lo, hi]` stay inside when an interval inside `[lo, hi]`
/// enters.
pub proof fn lemma_within_entered(ws: WorkingSet, x: Subinterval, lo: i64, hi: i64)
    requires
        ws.wf(),
        all_within(ws.active, lo, hi),
        lo <= x.a && x.b <= hi,
    ensures
        all_within(ws.entered(x).active, lo, hi),
        ws.active.len() < ws.capacity ==> ws.entered(x).active.len() == ws.active.len() + 1,
{
    let s0 = ws.active;
    lemma_placed_ascending(s0, x);
    lemma_placed_members(s0, x);
    let s1 = placed(s0, x);
    assert forall|i: int| 0 <= i < s1.len() implies lo <= (#[trigger] s1[i]).a && s1[i].b
        <= hi by {
        if s1[i] != x {
            let j = choose|j: int| 0 <= j < s0.len() && s0[j] == s1[i];
            assert(lo <= s0[j].a);
        }
    }
    lemma_leaving(s1);
    let s2 = thinned(s1);
    assert forall|i: int| 0 <= i < s2.len() implies lo <= (#[trigger] s2[i]).a && s2[i].b
        <= hi by {
        assert(s2[i] == s1[if i < leaving_place(s1) {
            i
        } else {
            i + 1
        }]);
    }
}

/// The number of intervals of the sequence that hold the point `t`; an interval
/// holds its lower bound and not its upper one.
pub open spec fn coverage(s: Seq<Subinterval>, t: int) -> int
    decreases s.len(),
{
    if s.len() == 0 {
        0
    } else {
        coverage(s.drop_last(), t) + if s.last().a <= t < s.last().b {
            1int
        } else {
            0int
        }
    }
}

/// The intervals of the sequence part the range `[lo, hi)`: every point of the
/// range lies in exactly one of them, and no other point lies in any.
pub open spec fn partitions(s: Seq<Subinterval>, lo: i64, hi: i64) -> bool {
    forall|t: int|
        #[trigger] coverage(s, t) == if lo <= t < hi {
            1int
        } else {
            0int
        }
}

/// Entering an interval at any place adds one to the coverage of the points it
/// holds.
pub proof fn lemma_coverage_after_insert(s: Seq<Subinterval>, p: int, x: Subinterval, t: int)
    requires
        0 <= p <= s.len(),
    ensures
        coverage(s.insert(p, x), t) == coverage(s, t) + if x.a <= t < x.b {
            1int
        } else {
            0int
        },
    decreases s.len(),
{
    let u = s.insert(p, x);
    if p == s.len() {
        assert(u.drop_last() =~= s);
    } else {
        assert(u.drop_last() =~= s.drop_last().insert(p, x));
        assert(u.last() == s.last());
        lemma_coverage_after_insert(s.drop_last(), p, x, t);
    }
}

/// Taking an interval out at any place takes one from the coverage of the
/// points it holds.
pub proof fn lemma_coverage_after_remove(s: Seq<Subinterval>, p: int, t: int)
    requires
        0 <= p < s.len(),
    ensures
        coverage(s.remove(p), t) == coverage(s, t) - if s[p].a <= t < s[p].b {
            1int
        } else {
            0int
        },
    decreases s.len(),
{
    let u = s.remove(p);
    if p == s.len() - 1 {
        assert(u =~= s.drop_last());
    } else {
        assert(u.drop_last() =~= s.drop_last().remove(p));
        assert(u.last() == s.last());
        lemma_coverage_after_remove(s.drop_last(), p, t);
    }
}

/// One interval parts its own range.
pub proof fn lemma_partition_single(x: Subinterval)
    ensures
        partitions(seq![x], x.a, x.b),
        partitions(Seq::<Subinterval>::empty(), x.a, x.a),
{
    let s = seq![x];
    assert(s.drop_last() =~= Seq::<Subinterval>::empty());
    assert forall|t: int| #[trigger] coverage(s, t) == if x.a <= t < x.b {
        1int
    } else {
        0int
    } by {
        assert(coverage(s.drop_last(), t) == 0);
        assert(s.last() == x);
    }
}

/// A working set that parts a range still parts it after its worst interval
/// has been replaced by two intervals that part the worst interval, as long as
/// there is room for both.
pub proof fn lemma_partition_bisected(
    ws: WorkingSet,
    child1: Subinterval,
    child2: Subinterval,
    lo: i64,
    hi: i64,
)
    requires
        ws.wf(),
        1 <= ws.active.len() < ws.capacity,
        partitions(ws.active, lo, hi),
        child1.a == ws.worst().a,
        child1.b == child2.a,
        child2.b == ws.worst().b,
        child1.a <= child1.b <= child2.b,
    ensures
        partitions(ws.bisected(child1, child2).active, lo, hi),
{
    let s = ws.active;
    let s0 = s.drop_last();
    lemma_ascending_parts(s);
    lemma_rank_parts(s0, child1.error);
    let s1 = placed(s0, child1);
    lemma_placed_ascending(s0, child1);
    lemma_rank_parts(s1, child2.error);
    let s2 = placed(s1, child2);
    lemma_placed_ascending(s1, child2);
    assert(s0 =~= s.remove(s.len() - 1));
    assert forall|t: int| #[trigger] coverage(s2, t) == if lo <= t < hi {
        1int
    } else {
        0int
    } by {
        assert(coverage(s, t) == if lo <= t < hi {
            1int
        } else {
            0int
        });
        lemma_coverage_after_remove(s, s.len() - 1, t);
        lemma_coverage_after_insert(s0, rank_of(s0, child1.error), child1, t);
        lemma_coverage_after_insert(s1, rank_of(s1, child2.error), child2, t);
    }
}

/// A working set that parts the range up to the lower bound of an interval
/// parts the range up to its upper bound after the interval has entered, as
/// long as there is room for it.
pub proof fn lemma_partition_entered(ws: WorkingSet, x: Subinterval, lo: i64)
    requires
        ws.wf(),
        ws.active.len() < ws.capacity,
        partitions(ws.active, lo, x.a),
        lo <= x.a <= x.b,
    ensures
        partitions(ws.entered(x).active, lo, x.b),
{
    let s = ws.active;
    lemma_rank_parts(s, x.error);
    let s1 = placed(s, x);
    assert forall|t: int| #[trigger] coverage(s1, t) == if lo <= t < x.b {
        1int
    } else {
        0int
    } by {
        assert(coverage(s, t) == if lo <= t < x.a {
            1int
        } else {
            0int
        });
        lemma_coverage_after_insert(s, rank_of(s, x.error), x, t);
    }
}

/// Replacing the worst interval by its two children adds one interval, before
/// the capacity is looked at.
pub proof fn lemma_grown_length(ws: WorkingSet, child1: Subinterval, child2: Subinterval)
    requires
        ws.wf(),
        ws.active.len() >= 1,
    ensures
        ws.grown(child1, child2).len() == ws.active.len() + 1,
        ws.swapped(child1).len() == ws.active.len(),
{
    lemma_ascending_parts(ws.active);
    lemma_placed_ascending(ws.active.drop_last(), child1);
    lemma_placed_ascending(placed(ws.active.drop_last(), child1), child2);
}

/// Seeding a working set and asking at once for its worst interval gives the
/// seeded interval, whole and with zero estimates; the seeded set is well
/// formed, holds that interval alone, has zero totals, and seeding it again
/// with the same range changes nothing.
pub proof fn lemma_reset_then_worst(ws: WorkingSet, a: i64, b: i64)
    requires
        ws.capacity >= 1,
        a <= b,
    ensures
        ws.reset(a, b).wf(),
        ws.reset(a, b).worst() == seed(a, b),
        ws.reset(a, b).worst().a == a && ws.reset(a, b).worst().b == b,
        ws.reset(a, b).worst().error == 0 && ws.reset(a, b).worst().result == 0,
        ws.reset(a, b).active.len() == 1,
        ws.reset(a, b).total_error() == 0,
        ws.reset(a, b).total_result() == 0,
        ws.reset(a, b).reset(a, b) == ws.reset(a, b),
{
    lemma_single(seed(a, b));
}

/// Whatever is done to a well-formed working set, it stays well formed, so the
/// number of active intervals never exceeds the capacity and the intervals stay
/// in ascending order of their error estimates. This holds of seeding it, of
/// re-estimating its worst interval and of replacing its worst interval by two
/// children.
pub proof fn lemma_capacity_kept(
    ws: WorkingSet,
    a: i64,
    b: i64,
    child1: Subinterval,
    child2: Subinterval,
)
    requires
        ws.wf(),
        a <= b,
        child1.valid(),
        child2.valid(),
    ensures
        ws.reset(a, b).wf(),
        ws.reset(a, b).active.len() <= ws.capacity,
        ws.active.len() >= 1 ==> ws.revised(child1).wf() && ws.revised(child1).active.len()
            == ws.active.len(),
        ws.active.len() >= 1 ==> ws.bisected(child1, child2).wf() && ws.bisected(
            child1,
            child2,
        ).active.len() <= ws.capacity,
{
    lemma_reset_then_worst(ws, a, b);
    if ws.active.len() >= 1 {
        lemma_leave(ws.active);
        lemma_enter(ws.active.drop_last(), child1);
        lemma_enter(placed(ws.active.drop_last(), child1), child2);
        lemma_leave(ws.grown(child1, child2));
    }
}

/// When the worst interval of a full working set is replaced by its two
/// children, the interval that leaves is the one with the smallest error
/// estimate among all that were there, the children included, and among
/// several with that estimate the one that entered last; while there is room,
/// none leaves. A child whose error estimate does not exceed the smallest of
/// the others is therefore the one that leaves.
pub proof fn lemma_eviction_takes_least(ws: WorkingSet, child1: Subinterval, child2: Subinterval)
    requires
        ws.wf(),
        ws.active.len() >= 1,
        child1.valid(),
        child2.valid(),
    ensures
        ws.evicted(child1, child2) is Some <==> ws.active.len() == ws.capacity,
        ws.evicted(child1, child2) matches Some(out) ==> {
            &&& out == leaving(ws.grown(child1, child2))
            &&& ws.bisected(child1, child2).active == thinned(ws.grown(child1, child2))
            &&& ws.bisected(child1, child2).active.len() == ws.capacity
            &&& forall|i: int|
                0 <= i < ws.grown(child1, child2).len() ==> out.error <= (#[trigger] ws.grown(
                    child1,
                    child2,
                )[i]).error
            &&& forall|i: int|
                leaving_place(ws.grown(child1, child2)) < i < ws.grown(child1, child2).len()
                    ==> out.error < (#[trigger] ws.grown(child1, child2)[i]).error
            &&& forall|i: int|
                0 <= i < ws.bisected(child1, child2).active.len() ==> out.error
                    <= (#[trigger] ws.bisected(child1, child2).active[i]).error
        },
        ws.evicted(child1, child2) is None ==> ws.bisected(child1, child2).active == ws.grown(
            child1,
            child2,
        ),
{
    lemma_leave(ws.active);
    lemma_enter(ws.active.drop_last(), child1);
    lemma_enter(placed(ws.active.drop_last(), child1), child2);
    let g = ws.grown(child1, child2);
    if g.len() > ws.capacity {
        lemma_leaving(g);
        let t = thinned(g);
        assert forall|i: int| 0 <= i < t.len() implies leaving(g).error <= (#[trigger] t[i]).error by {
            assert(t[i] == g[if i < leaving_place(g) {
                i
            } else {
                i + 1
            }]);
        }
    }
}

/// A child whose error estimate does not exceed the smallest estimate among
/// the other intervals is discarded when the working set is full: where the
/// second child has such an estimate, it is the interval that leaves.
pub proof fn lemma_small_child_is_discarded(
    ws: WorkingSet,
    child1: Subinterval,
    child2: Subinterval,
)
    requires
        ws.wf(),
        ws.active.len() == ws.capacity,
        child1.valid(),
        child2.valid(),
        child2.error <= child1.error,
        forall|i: int| 0 <= i < ws.active.len() - 1 ==> child2.error <= (#[trigger] ws.active[i]).error,
    ensures
        ws.evicted(child1, child2) == Some(child2),
{
    let s0 = ws.active.drop_last();
    lemma_leave(ws.active);
    lemma_enter(s0, child1);
    let s1 = placed(s0, child1);
    lemma_placed_ascending(s0, child1);
    lemma_placed_members(s0, child1);
    lemma_enter(s1, child2);
    lemma_placed_ascending(s1, child2);
    lemma_rank_parts(s1, child2.error);
    let g = placed(s1, child2);
    let p = rank_of(s1, child2.error);
    lemma_leaving(g);
    assert forall|i: int| 0 <= i < s1.len() implies child2.error <= (#[trigger] s1[i]).error by {
        if s1[i] != child1 {
            let j = choose|j: int| 0 <= j < s0.len() && s0[j] == s1[i];
            assert(s0[j] == ws.active[j]);
        }
    }
    assert(g[p] == child2);
    assert(g.first().error == child2.error) by {
        if p > 0 {
            assert(g[0] == s1[0]);
            assert(s1[0].error <= child2.error);
        }
    }
    assert(leaving_place(g) == p) by {
        lemma_rank_parts(g, g.first().error);
        if leaving_place(g) < p {
            assert(g[p].error > g.first().error);
        }
    }
}

/// The totals of a working set change by what leaves and what enters: after
/// the worst interval is replaced by its two children, the sum of the error
/// estimates of the active intervals is the sum before, less the estimate of
/// the worst interval, plus those of the children, less that of the interval
/// that left; and so for the integral estimates.
pub proof fn lemma_totals_after_update(ws: WorkingSet, child1: Subinterval, child2: Subinterval)
    requires
        ws.wf(),
        ws.active.len() >= 1,
        child1.valid(),
        child2.valid(),
    ensures
        ws.bisected(child1, child2).total_error() == ws.total_error() - ws.worst().error
            + child1.error + child2.error - (match ws.evicted(child1, child2) {
            Some(out) => out.error as int,
            None => 0,
        }),
        ws.bisected(child1, child2).total_result() == ws.total_result() - ws.worst().result
            + child1.result + child2.result - (match ws.evicted(child1, child2) {
            Some(out) => out.result as int,
            None => 0,
        }),
        ws.revised(child1).total_error() == ws.total_error() - ws.worst().error + child1.error,
        ws.revised(child1).total_result() == ws.total_result() - ws.worst().result
            + child1.result,
{
    lemma_leave(ws.active);
    lemma_enter(ws.active.drop_last(), child1);
    lemma_enter(placed(ws.active.drop_last(), child1), child2);
    lemma_leave(ws.grown(child1, child2));
}

/// The working set of an adaptive integration.
///
/// It holds at most `limit()` intervals, ordered by their error estimates, and
/// keeps the sums of their integral and error estimates up to date.
pub struct IntegrationWorkspace {
    limit: usize,
    intervals: Vec<Subinterval>,
    total_result: i128,
    total_error: u128,
    maximum_level: usize,
}

impl View for IntegrationWorkspace {
    type V = WorkingSet;

    closed spec fn view(&self) -> WorkingSet {
        WorkingSet {
            capacity: self.limit as nat,
            active: self.intervals@,
            maximum_level: self.maximum_level as nat,
        }
    }
}

/// The rank of the error estimate `e` in an ascending vector.
fn rank_in(v: &Vec<Subinterval>, e: u64) -> (p: usize)
    ensures
        p == rank_of(v@, e),
        p <= v@.len(),
{
    let mut p: usize = v.len();
    assert(v@.subrange(0, p as int) =~= v@);
    while p > 0 && v[p - 1].error > e
        invariant
            p <= v.len(),
            rank_of(v@, e) == rank_of(v@.subrange(0, p as int), e),
        decreases p,
    {
        proof {
            let t = v@.subrange(0, p as int);
            assert(t.last() == v@[p - 1]);
            assert(t.drop_last() =~= v@.subrange(0, p - 1));
        }
        p = p - 1;
    }
    proof {
        let t = v@.subrange(0, p as int);
        if p > 0 {
            assert(t.last() == v@[p - 1]);
        }
        assert(rank_of(t, e) == p);
    }
    p
}

/// Puts `x` into an ascending vector at its rank.
fn place(v: &mut Vec<Subinterval>, x: Subinterval)
    requires
        ascending(old(v)@),
    ensures
        final(v)@ == placed(old(v)@, x),
{
    let p = rank_in(v, x.error);
    v.insert(p, x);
}

impl IntegrationWorkspace {
    /// The invariant of the workspace: the working set is well formed and the
    /// running totals are the sums over the active intervals.
    pub closed spec fn wf(&self) -> bool {
        &&& self@.wf()
        &&& self.total_error == sum_errors(self.intervals@)
        &&& self.total_result == sum_results(self.intervals@)
    }

    /// The running total of the error estimates, as the workspace stores it.
    pub closed spec fn running_error(&self) -> int {
        self.total_error as int
    }

    /// The running total of the integral estimates, as the workspace stores it.
    pub closed spec fn running_result(&self) -> int {
        self.total_result as int
    }

    /// The running totals of a well-formed workspace are the sums over its
    /// active intervals.
    pub proof fn lemma_running_totals(&self)
        requires
            self.wf(),
        ensures
            self.running_error() == sum_errors(self@.active),
            self.running_result() == sum_results(self@.active),
    {
    }

    /// The working set that a well-formed workspace holds is well formed: it
    /// holds no more intervals than its capacity, in ascending order of their
    /// error estimates.
    pub proof fn lemma_view_wf(&self)
        requires
            self.wf(),
        ensures
            self@.wf(),
    {
    }

    /// A workspace for at most `n` intervals, or `None` when `n` is zero or the
    /// memory for `n` intervals cannot be had. Memory is asked for one
    /// interval more than `n`, once; what follows from the answer is what
    /// `on_storage` says.
    pub fn new(n: usize) -> (r: Option<IntegrationWorkspace>)
        ensures
            n == 0 ==> r is None,
            r matches Some(w) ==> w.wf() && w@ == (WorkingSet {
                capacity: n as nat,
                active: Seq::<Subinterval>::empty(),
                maximum_level: 0,
            }),
    {
        if n == 0 {
            return None;
        }
        let mut intervals: Vec<Subinterval> = Vec::new();
        // One place more than the capacity: two children enter before the
        // interval with the smallest error leaves.
        let room = if n < usize::MAX {
            n + 1
        } else {
            n
        };
        let reserved = match intervals.try_reserve(room) {
            Ok(_) => true,
            Err(_) => false,
        };
        Self::on_storage(n, intervals, reserved)
    }

    /// The workspace for at most `n` intervals on the storage `intervals`, of
    /// which `reserved` tells whether the memory for the intervals could be
    /// had. `None` when `n` is zero, when the memory could not be had, or when
    /// the storage holds an interval already; else the workspace that holds no
    /// interval.
    pub fn on_storage(n: usize, intervals: Vec<Subinterval>, reserved: bool) -> (r: Option<
        IntegrationWorkspace,
    >)
        ensures
            r is Some <==> n >= 1 && reserved && intervals@.len() == 0,
            r matches Some(w) ==> w.wf() && w@ == (WorkingSet {
                capacity: n as nat,
                active: Seq::<Subinterval>::empty(),
                maximum_level: 0,
            }),
    {
        if n == 0 || !reserved || intervals.len() != 0 {
            return None;
        }
        assert(intervals@ =~= Seq::<Subinterval>::empty());
        Some(
            IntegrationWorkspace {
                limit: n,
                intervals,
                total_result: 0,
                total_error: 0,
                maximum_level: 0,
            },
        )
    }

    /// The largest number of intervals the workspace can hold.
    pub fn limit(&self) -> (r: usize)
        ensures
            r == self@.capacity,
    {
        self.limit
    }

    /// The number of active intervals.
    pub fn size(&self) -> (r: usize)
        ensures
            r == self@.active.len(),
    {
        self.intervals.len()
    }

    /// The rank, by descending error estimate, of the interval that is
    /// processed next. The workspace always processes the interval with the
    /// largest error estimate, whose rank is zero.
    pub fn nrmax(&self) -> (r: usize)
        ensures
            r == 0,
    {
        0
    }

    /// The place in the workspace of the interval that is processed next: the
    /// last place, since the intervals are kept by ascending error estimate.
    /// Zero for an empty workspace.
    pub fn i(&self) -> (r: usize)
        ensures
            r == if self@.active.len() == 0 {
                0
            } else {
                self@.active.len() - 1
            },
            self@.active.len() >= 1 ==> self@.active[r as int] == self@.worst(),
    {
        if self.intervals.len() == 0 {
            0
        } else {
            self.intervals.len() - 1
        }
    }

    /// The largest level reached since the last reset.
    pub fn maximum_level(&self) -> (r: usize)
        ensures
            r == self@.maximum_level,
    {
        self.maximum_level
    }

    /// True when the number of active intervals equals the capacity.
    pub fn is_full(&self) -> (r: bool)
        ensures
            r == (self@.active.len() == self@.capacity),
    {
        self.intervals.len() == self.limit
    }

    /// The sum of the error estimates of the active intervals.
    pub fn total_error(&self) -> (r: u128)
        requires
            self.wf(),
        ensures
            r == self.running_error(),
            r == self@.total_error(),
    {
        self.total_error
    }

    /// The sum of the integral estimates of the active intervals.
    pub fn total_result(&self) -> (r: i128)
        requires
            self.wf(),
        ensures
            r == self.running_result(),
            r == self@.total_result(),
    {
        self.total_result
    }

    /// Clears the workspace and seeds it with the interval `[a, b]` with zero
    /// estimates.
    pub fn reset(&mut self, a: i64, b: i64)
        requires
            old(self)@.capacity >= 1,
            a <= b,
        ensures
            final(self).wf(),
            final(self)@ == old(self)@.reset(a, b),
            final(self).running_error() == 0,
            final(self).running_result() == 0,
    {
        self.intervals.clear();
        self.intervals.push(Subinterval { a, b, result: 0, error: 0, level: 0 });
        self.total_result = 0;
        self.total_error = 0;
        self.maximum_level = 0;
        proof {
            let s = self.intervals@;
            assert(s =~= seq![seed(a, b)]);
            assert(s.drop_last().len() == 0);
            assert(sum_errors(s.drop_last()) == 0);
            assert(sum_results(s.drop_last()) == 0);
        }
    }

    /// The place at which an interval with the error estimate `error` would
    /// enter: behind the last interval whose estimate does not exceed `error`.
    pub fn rank(&self, error: u64) -> (r: usize)
        ensures
            r == rank_of(self@.active, error),
            r <= self@.active.len(),
    {
        rank_in(&self.intervals, error)
    }

    /// Removes every interval.
    pub fn clear(&mut self)
        requires
            old(self)@.capacity >= 1,
        ensures
            final(self).wf(),
            final(self)@ == old(self)@.cleared(),
            final(self).running_error() == 0,
            final(self).running_result() == 0,
    {
        self.intervals.clear();
        self.total_result = 0;
        self.total_error = 0;
        self.maximum_level = 0;
    }

    /// Puts the interval `x` in its place in the order, and returns that place.
    /// When the workspace was full, the interval that leaves first leaves and
    /// is returned, with the place it left from.
    pub fn enter(&mut self, x: Subinterval) -> (r: (usize, Option<(usize, Subinterval)>))
        requires
            old(self).wf(),
            x.valid(),
        ensures
            final(self).wf(),
            final(self)@ == old(self)@.entered(x),
            r.0 == rank_of(old(self)@.active, x.error),
            r.1 is Some <==> old(self)@.active.len() >= old(self)@.capacity,
            r.1 matches Some(left) ==> left.0 == leaving_place(placed(old(self)@.active, x))
                && left.1 == leaving(placed(old(self)@.active, x)) && left.0 <= old(
                self,
            )@.active.len(),
            final(self).running_error() == sum_errors(final(self)@.active),
            final(self).running_result() == sum_results(final(self)@.active),
            final(self)@.active.len() <= final(self)@.capacity,
    {
        let ghost s0 = self.intervals@;
        proof {
            lemma_enter(s0, x);
            lemma_sums_fit(s0);
            lemma_sums_fit(placed(s0, x));
            lemma_leave(placed(s0, x));
            lemma_sums_fit(thinned(placed(s0, x)));
            lemma_leaving(placed(s0, x));
        }
        let p = rank_in(&self.intervals, x.error);
        self.intervals.insert(p, x);
        self.total_error = self.total_error + (x.error as u128);
        self.total_result = self.total_result + (x.result as i128);
        if x.level > self.maximum_level {
            self.maximum_level = x.level;
        }
        if self.intervals.len() > self.limit {
            let least = self.intervals[0].error;
            let k = rank_in(&self.intervals, least) - 1;
            let out = self.intervals.remove(k);
            self.total_error = self.total_error - (out.error as u128);
            self.total_result = self.total_result - (out.result as i128);
            (p, Some((k, out)))
        } else {
            (p, None)
        }
    }

    /// Puts the interval `x` in its place in the order. When the workspace was
    /// full, the interval that leaves first leaves and is returned.
    pub fn insert(&mut self, x: Subinterval) -> (out: Option<Subinterval>)
        requires
            old(self).wf(),
            x.valid(),
        ensures
            final(self).wf(),
            final(self)@ == old(self)@.entered(x),
            out == old(self)@.displaced(x),
            final(self).running_error() == sum_errors(final(self)@.active),
            final(self).running_result() == sum_results(final(self)@.active),
            final(self)@.active.len() <= final(self)@.capacity,
    {
        match self.enter(x).1 {
            Some(left) => Some(left.1),
            None => None,
        }
    }

    /// Takes the interval with the largest error estimate out of the workspace
    /// and returns it.
    pub fn extract_worst(&mut self) -> (r: Subinterval)
        requires
            old(self).wf(),
            old(self)@.active.len() >= 1,
        ensures
            final(self).wf(),
            r == old(self)@.worst(),
            final(self)@ == old(self)@.reduced(),
            final(self).running_error() == sum_errors(final(self)@.active),
            final(self).running_result() == sum_results(final(self)@.active),
    {
        let ghost s0 = self.intervals@;
        let worst = self.intervals[self.intervals.len() - 1];
        proof {
            lemma_leave(s0);
            lemma_sums_fit(s0.drop_last());
        }
        self.intervals.pop();
        assert(self.intervals@ =~= s0.drop_last());
        self.total_error = self.total_error - (worst.error as u128);
        self.total_result = self.total_result - (worst.result as i128);
        worst
    }

    /// The interval with the largest error estimate; among intervals with equal
    /// estimates the one that entered last.
    pub fn worst(&self) -> (r: Subinterval)
        requires
            self.wf(),
            self@.active.len() >= 1,
        ensures
            r == self@.worst(),
            r.valid(),
            forall|i: int| 0 <= i < self@.active.len() ==> (#[trigger] self@.active[i]).error <= r.error,
    {
        self.intervals[self.intervals.len() - 1]
    }

    /// The interval that leaves first when the workspace overflows: the one with
    /// the smallest error estimate, and among several of these the one that
    /// entered last.
    pub fn least(&self) -> (r: Subinterval)
        requires
            self.wf(),
            self@.active.len() >= 1,
        ensures
            r == leaving(self@.active),
            forall|i: int| 0 <= i < self@.active.len() ==> r.error <= (#[trigger] self@.active[i]).error,
    {
        proof {
            lemma_leaving(self.intervals@);
        }
        let least = self.intervals[0].error;
        self.intervals[rank_in(&self.intervals, least) - 1]
    }

    /// The `k`-th active interval, by ascending error estimate.
    pub fn interval(&self, k: usize) -> (r: Subinterval)
        requires
            k < self@.active.len(),
        ensures
            r == self@.active[k as int],
    {
        self.intervals[k]
    }

    /// Replaces the worst interval by a new estimate `x` of it and puts it in
    /// its place in the order.
    pub fn revise(&mut self, x: Subinterval)
        requires
            old(self).wf(),
            old(self)@.active.len() >= 1,
            x.valid(),
        ensures
            final(self).wf(),
            final(self)@ == old(self)@.revised(x),
            final(self).running_error() == sum_errors(final(self)@.active),
            final(self).running_result() == sum_results(final(self)@.active),
    {
        let ghost s0 = self.intervals@;
        let parent = self.intervals[self.intervals.len() - 1];
        proof {
            lemma_leave(s0);
            lemma_enter(s0.drop_last(), x);
            lemma_sums_fit(s0.drop_last());
            lemma_sums_fit(placed(s0.drop_last(), x));
        }
        self.intervals.pop();
        assert(self.intervals@ =~= s0.drop_last());
        place(&mut self.intervals, x);
        self.total_error = self.total_error - (parent.error as u128) + (x.error as u128);
        self.total_result = self.total_result - (parent.result as i128) + (x.result as i128);
        if x.level > self.maximum_level {
            self.maximum_level = x.level;
        }
    }

    /// Records the first estimates of the seeded interval.
    pub fn set_initial_result(&mut self, result: i64, error: u64)
        requires
            old(self).wf(),
            old(self)@.active.len() >= 1,
        ensures
            final(self).wf(),
            final(self)@ == old(self)@.revised(
                Subinterval {
                    a: old(self)@.worst().a,
                    b: old(self)@.worst().b,
                    result,
                    error,
                    level: old(self)@.worst().level,
                },
            ),
    {
        let w = self.worst();
        self.revise(Subinterval { a: w.a, b: w.b, result, error, level: w.level });
    }

    /// Replaces the worst interval by its two children and puts them in their
    /// places in the order. When that leaves more intervals than the workspace
    /// can hold, the interval with the smallest error estimate leaves and is
    /// returned (among several with that estimate, the one that entered last):
    /// its estimates are no longer part of the totals.
    pub fn update(&mut self, child1: Subinterval, child2: Subinterval) -> (evicted: Option<
        Subinterval,
    >)
        requires
            old(self).wf(),
            old(self)@.active.len() >= 1,
            child1.valid(),
            child2.valid(),
        ensures
            final(self).wf(),
            final(self)@ == old(self)@.bisected(child1, child2),
            evicted == old(self)@.evicted(child1, child2),
            final(self).running_error() == sum_errors(final(self)@.active),
            final(self).running_result() == sum_results(final(self)@.active),
            final(self)@.active.len() <= final(self)@.capacity,
    {
        let ghost s0 = self.intervals@;
        let ghost s1 = placed(s0.drop_last(), child1);
        let ghost s2 = placed(s1, child2);
        let parent = self.intervals[self.intervals.len() - 1];
        proof {
            lemma_leave(s0);
            lemma_enter(s0.drop_last(), child1);
            lemma_enter(s1, child2);
            lemma_sums_fit(s0.drop_last());
            lemma_sums_fit(s1);
            lemma_sums_fit(s2);
            lemma_leave(s2);
            lemma_sums_fit(thinned(s2));
            lemma_leaving(s2);
        }
        self.intervals.pop();
        assert(self.intervals@ =~= s0.drop_last());
        place(&mut self.intervals, child1);
        place(&mut self.intervals, child2);
        self.total_error = self.total_error - (parent.error as u128) + (child1.error as u128);
        self.total_error = self.total_error + (child2.error as u128);
        self.total_result = self.total_result - (parent.result as i128) + (child1.result as i128);
        self.total_result = self.total_result + (child2.result as i128);
        if child1.level > self.maximum_level {
            self.maximum_level = child1.level;
        }
        if child2.level > self.maximum_level {
            self.maximum_level = child2.level;
        }
        if self.intervals.len() > self.limit {
            let least = self.intervals[0].error;
            let out = self.intervals.remove(rank_in(&self.intervals, least) - 1);
            self.total_error = self.total_error - (out.error as u128);
            self.total_result = self.total_result - (out.result as i128);
            Some(out)
        } else {
            None
        }
    }
}

} // verus!
