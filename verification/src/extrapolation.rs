//! The extrapolation table: convergence acceleration of a sequence of partial
//! estimates by the epsilon algorithm.
//!
//! The table keeps the last partial estimates (at most `TABLE_CAPACITY` of
//! them) and, from them, builds the even columns of the epsilon table by the
//! cross rule, which relates five neighbouring entries:
//!
//! ```text
//!            N
//!        W   C   E        1/(E - C) = 1/(N - C) + 1/(S - C) - 1/(W - C)
//!            S
//! ```
//!
//! `N`, `C`, `S` are consecutive entries of one column, `W` stands in the column
//! before it and `E` in the column after it. The first column after the partial
//! estimates has no `W` and drops that term. Every quotient is guarded: where
//! two neighbours are equal, a difference is too large, a divisor is zero or a
//! quotient leaves the guarded range, the entry is absent and so is every entry
//! that rests on it.
use vstd::prelude::*;
use crate::fixedpoint::{clamp_to_u64, magnitude_of, saturate_unsigned, truncated_quotient};

verus! {

/// Largest number of partial estimates that the table keeps.
pub const TABLE_CAPACITY: usize = 52;

/// Number of extrapolated estimates that the table keeps to judge stagnation.
pub const RECENT_CAPACITY: usize = 3;

/// Differences and quotients of this magnitude or more are not extrapolated.
pub const GUARD: i128 = 0x4000_0000_0000_0000;

/// No error estimate that the table reports is below this.
pub const ERROR_FLOOR: u64 = 5;

/// The guarded quotient `x * y / d`, rounded toward zero: absent when `x` or
/// `y` is zero or reaches the guard, when `d` is zero, or when the quotient
/// reaches the guard.
pub open spec fn guarded_ratio(x: int, y: int, d: int) -> Option<int> {
    if x == 0 || y == 0 || magnitude_of(x) >= GUARD || magnitude_of(y) >= GUARD || d == 0 {
        None
    } else {
        let q = if d > 0 {
            truncated_quotient(x * y, d)
        } else {
            truncated_quotient(-(x * y), -d)
        };
        if magnitude_of(q) >= GUARD {
            None
        } else {
            Some(q)
        }
    }
}

/// An entry `c + q`, absent when it leaves the range of the values.
pub open spec fn shifted(c: int, q: Option<int>) -> Option<int> {
    match q {
        Some(q) => if i64::MIN <= c + q <= i64::MAX {
            Some(c + q)
        } else {
            None
        },
        None => None,
    }
}

/// The cross rule without the `W` term.
pub open spec fn first_cross(n: Option<int>, c: Option<int>, s: Option<int>) -> Option<int> {
    match (n, c, s) {
        (Some(n), Some(c), Some(s)) => shifted(
            c,
            guarded_ratio(n - c, s - c, (n - c) + (s - c)),
        ),
        _ => None,
    }
}

/// The cross rule.
pub open spec fn later_cross(
    n: Option<int>,
    c: Option<int>,
    s: Option<int>,
    w: Option<int>,
) -> Option<int> {
    match (n, c, s, w) {
        (Some(n), Some(c), Some(s), Some(w)) => match guarded_ratio(
            n - c,
            s - c,
            (n - c) + (s - c),
        ) {
            Some(t) => shifted(c, guarded_ratio(t, w - c, (w - c) - t)),
            None => None,
        },
        _ => None,
    }
}

/// The entry at place `p` of the `j`-th even column of the epsilon table of
/// `values`; column zero holds the values themselves.
pub open spec fn entry(values: Seq<i64>, j: nat, p: int) -> Option<int>
    decreases j,
{
    if p < 0 || p + 2 * j >= values.len() {
        None
    } else if j == 0 {
        Some(values[p] as int)
    } else if j == 1 {
        first_cross(entry(values, 0, p), entry(values, 0, p + 1), entry(values, 0, p + 2))
    } else {
        later_cross(
            entry(values, (j - 1) as nat, p),
            entry(values, (j - 1) as nat, p + 1),
            entry(values, (j - 1) as nat, p + 2),
            entry(values, (j - 2) as nat, p + 2),
        )
    }
}

/// The number of entries of the `j`-th column.
pub open spec fn column_length(values: Seq<i64>, j: nat) -> int {
    if values.len() >= 2 * j {
        values.len() - 2 * j
    } else {
        0
    }
}

/// An estimate with the local measure of its error.
pub struct Candidate {
    pub estimate: int,
    pub error: int,
}

/// The last entry of the `j`-th column with the measure of its error: the
/// variation of the three entries it was made from, and its own distance from
/// the last of them. Absent when the entry is.
pub open spec fn candidate(values: Seq<i64>, j: nat) -> Option<Candidate>
    recommends
        j >= 1,
{
    let p = column_length(values, j) - 1;
    match (
        entry(values, j, p),
        entry(values, (j - 1) as nat, p),
        entry(values, (j - 1) as nat, p + 1),
        entry(values, (j - 1) as nat, p + 2),
    ) {
        (Some(e), Some(n), Some(c), Some(s)) => Some(
            Candidate {
                estimate: e,
                error: magnitude_of(s - c) + magnitude_of(e - s) + magnitude_of(c - n),
            },
        ),
        _ => None,
    }
}

/// The best estimate among the last value and the candidates of the columns
/// `1` to `j`: the one with the least error measure, the later column winning
/// among equals. The last value itself counts as of unknown error.
pub open spec fn accelerated(values: Seq<i64>, j: nat) -> Candidate
    recommends
        values.len() >= 1,
    decreases j,
{
    if j == 0 {
        Candidate { estimate: values.last() as int, error: 0x1_0000_0000_0000_0000_0000 }
    } else {
        let before = accelerated(values, (j - 1) as nat);
        match candidate(values, j) {
            Some(c) => if c.error <= before.error {
                c
            } else {
                before
            },
            None => before,
        }
    }
}

/// The mathematical content of an extrapolation table.
pub struct TableModel {
    /// The partial estimates, oldest first.
    pub values: Seq<i64>,
    /// The last extrapolated estimates, oldest first.
    pub recent: Seq<i64>,
}

impl TableModel {
    /// The invariant of a table.
    pub open spec fn wf(self) -> bool {
        self.values.len() <= TABLE_CAPACITY && self.recent.len() <= RECENT_CAPACITY
    }

    /// The partial estimates after `value` has been appended: the oldest one is
    /// dropped first when the table is full.
    pub open spec fn pushed(self, value: i64) -> Seq<i64> {
        if self.values.len() >= TABLE_CAPACITY {
            self.values.remove(0).push(value)
        } else {
            self.values.push(value)
        }
    }

    /// The estimate that appending `value` returns: `value` itself while fewer
    /// than three partial estimates are there, else the best accelerated one.
    pub open spec fn estimate(self, value: i64) -> int {
        let v = self.pushed(value);
        if v.len() < 3 {
            value as int
        } else {
            accelerated(v, ((v.len() - 1) / 2) as nat).estimate
        }
    }

    /// The error estimate that appending `value` returns: unknown (the largest
    /// value) until three extrapolated estimates are there to compare with,
    /// then the sum of the distances of the new estimate from those three, and
    /// never less than the floor.
    pub open spec fn error(self, value: i64) -> int {
        let v = self.pushed(value);
        let e = self.estimate(value);
        if v.len() < 3 || self.recent.len() < 3 {
            u64::MAX as int
        } else {
            let spread = clamp_to_u64(
                magnitude_of(e - self.recent[0]) + magnitude_of(e - self.recent[1]) + magnitude_of(
                    e - self.recent[2],
                ),
            );
            if spread < ERROR_FLOOR {
                ERROR_FLOOR as int
            } else {
                spread
            }
        }
    }

    /// The table after `value` has been appended.
    pub open spec fn appended(self, value: i64) -> TableModel {
        let v = self.pushed(value);
        let e = self.estimate(value) as i64;
        TableModel {
            values: v,
            recent: if v.len() < 3 {
                self.recent
            } else if self.recent.len() < 3 {
                self.recent.push(e)
            } else {
                self.recent.remove(0).push(e)
            },
        }
    }
}

/// The executable entry `o` stands for the entry `e` of the epsilon table.
pub open spec fn stands_for(o: Option<i64>, e: Option<int>) -> bool {
    match o {
        Some(x) => e == Some(x as int),
        None => e is None,
    }
}

/// A wide executable quotient as an integer.
pub open spec fn widened(q: Option<i128>) -> Option<int> {
    match q {
        Some(x) => Some(x as int),
        None => None,
    }
}

/// The guarded quotient `x * y / d`.
fn ratio(x: i128, y: i128, d: i128) -> (r: Option<i128>)
    requires
        -0x2_0000_0000_0000_0000 <= d <= 0x2_0000_0000_0000_0000,
    ensures
        widened(r) == guarded_ratio(x as int, y as int, d as int),
        r matches Some(q) ==> -GUARD < q < GUARD,
{
    if x == 0 || y == 0 || x >= GUARD || x <= -GUARD || y >= GUARD || y <= -GUARD || d == 0 {
        return None;
    }
    assert(-0x4000_0000_0000_0000 * 0x4000_0000_0000_0000 <= (x as int) * (y as int)
        <= 0x4000_0000_0000_0000 * 0x4000_0000_0000_0000) by (nonlinear_arith)
        requires
            -0x4000_0000_0000_0000 < x < 0x4000_0000_0000_0000,
            -0x4000_0000_0000_0000 < y < 0x4000_0000_0000_0000,
    ;
    let num: i128 = x * y;
    let q: i128 = if d > 0 {
        num / d
    } else {
        (-num) / (-d)
    };
    if q >= GUARD || q <= -GUARD {
        None
    } else {
        Some(q)
    }
}

/// The entry `c + q`.
fn shift(c: i64, q: Option<i128>) -> (r: Option<i64>)
    requires
        q matches Some(x) ==> -GUARD < x < GUARD,
    ensures
        stands_for(r, shifted(c as int, widened(q))),
{
    match q {
        Some(x) => {
            let e: i128 = (c as i128) + x;
            if e < i64::MIN as i128 || e > i64::MAX as i128 {
                None
            } else {
                Some(e as i64)
            }
        },
        None => None,
    }
}

/// The cross rule on executable entries; `w` is `None` for the first column,
/// which has no `W` term.
fn cross(n: Option<i64>, c: Option<i64>, s: Option<i64>, w: Option<Option<i64>>) -> (r: Option<
    i64,
>)
    ensures
        w is None ==> forall|en: Option<int>, ec: Option<int>, es: Option<int>|
            stands_for(n, en) && stands_for(c, ec) && stands_for(s, es) ==> stands_for(
                r,
                #[trigger] first_cross(en, ec, es),
            ),
        w matches Some(w1) ==> forall|
            en: Option<int>,
            ec: Option<int>,
            es: Option<int>,
            ew: Option<int>,
        |
            stands_for(n, en) && stands_for(c, ec) && stands_for(s, es) && stands_for(w1, ew)
                ==> stands_for(r, #[trigger] later_cross(en, ec, es, ew)),
{
    let (n, c, s) = match (n, c, s) {
        (Some(n), Some(c), Some(s)) => (n, c, s),
        _ => {
            return None;
        },
    };
    let dn: i128 = (n as i128) - (c as i128);
    let ds: i128 = (s as i128) - (c as i128);
    match w {
        None => shift(c, ratio(dn, ds, dn + ds)),
        Some(None) => None,
        Some(Some(w)) => {
            let dw: i128 = (w as i128) - (c as i128);
            match ratio(dn, ds, dn + ds) {
                Some(t) => shift(c, ratio(t, dw, dw - t)),
                None => None,
            }
        },
    }
}

/// The distance of two values.
fn distance(x: i64, y: i64) -> (r: u128)
    ensures
        r == magnitude_of(x - y),
{
    let d: i128 = (x as i128) - (y as i128);
    if d >= 0 {
        d as u128
    } else {
        (-d) as u128
    }
}

/// The extrapolation table.
pub struct ExtrapolationTable {
    values: Vec<i64>,
    recent: Vec<i64>,
}

impl View for ExtrapolationTable {
    type V = TableModel;

    closed spec fn view(&self) -> TableModel {
        TableModel { values: self.values@, recent: self.recent@ }
    }
}

impl ExtrapolationTable {
    /// An empty table.
    pub fn new() -> (r: ExtrapolationTable)
        ensures
            r@.wf(),
            r@.values.len() == 0,
            r@.recent.len() == 0,
    {
        ExtrapolationTable { values: Vec::new(), recent: Vec::new() }
    }

    /// The number of partial estimates in the table.
    pub fn len(&self) -> (r: usize)
        ensures
            r == self@.values.len(),
    {
        self.values.len()
    }

    /// The best accelerated estimate from the partial estimates in the table.
    fn accelerate(&self) -> (r: i64)
        requires
            self@.values.len() >= 3,
            self@.values.len() <= TABLE_CAPACITY,
        ensures
            r == accelerated(self@.values, ((self@.values.len() - 1) / 2) as nat).estimate,
    {
        let ghost values = self.values@;
        let len = self.values.len();
        let mut before: Vec<Option<i64>> = Vec::new();
        let mut prev: Vec<Option<i64>> = Vec::new();
        let mut k: usize = 0;
        while k < len
            invariant
                values == self.values@,
                len == values.len(),
                k <= len,
                prev@.len() == k,
                forall|p: int| 0 <= p < k ==> stands_for(#[trigger] prev@[p], entry(values, 0, p)),
            decreases len - k,
        {
            prev.push(Some(self.values[k]));
            k = k + 1;
        }
        let mut best: i64 = self.values[len - 1];
        let mut best_error: u128 = 0x1_0000_0000_0000_0000_0000;
        let mut j: usize = 1;
        while prev.len() >= 3
            invariant
                values == self.values@,
                len == values.len(),
                3 <= len <= TABLE_CAPACITY,
                j >= 1,
                prev@.len() == column_length(values, (j - 1) as nat),
                prev@.len() >= 1,
                2 * (j - 1) + prev@.len() == len,
                forall|p: int|
                    0 <= p < prev@.len() ==> stands_for(
                        #[trigger] prev@[p],
                        entry(values, (j - 1) as nat, p),
                    ),
                j >= 2 ==> before@.len() == prev@.len() + 2,
                j >= 2 ==> forall|p: int|
                    0 <= p < before@.len() ==> stands_for(
                        #[trigger] before@[p],
                        entry(values, (j - 2) as nat, p),
                    ),
                best == accelerated(values, (j - 1) as nat).estimate,
                best_error == accelerated(values, (j - 1) as nat).error,
                best_error <= 0x1_0000_0000_0000_0000_0000,
            decreases prev@.len(),
        {
            let count = prev.len() - 2;
            let mut next: Vec<Option<i64>> = Vec::new();
            let mut p: usize = 0;
            while p < count
                invariant
                    values == self.values@,
                    len == values.len(),
                    j >= 1,
                    count + 2 == prev@.len(),
                    2 * (j - 1) + prev@.len() == len,
                    p <= count,
                    next@.len() == p,
                    forall|i: int|
                        0 <= i < prev@.len() ==> stands_for(
                            #[trigger] prev@[i],
                            entry(values, (j - 1) as nat, i),
                        ),
                    j >= 2 ==> before@.len() == prev@.len() + 2,
                    j >= 2 ==> forall|i: int|
                        0 <= i < before@.len() ==> stands_for(
                            #[trigger] before@[i],
                            entry(values, (j - 2) as nat, i),
                        ),
                    forall|i: int|
                        0 <= i < p ==> stands_for(#[trigger] next@[i], entry(values, j as nat, i)),
                decreases count - p,
            {
                let w = if j >= 2 {
                    Some(before[p + 2])
                } else {
                    None
                };
                let e = cross(prev[p], prev[p + 1], prev[p + 2], w);
                proof {
                    let en = entry(values, (j - 1) as nat, p as int);
                    let ec = entry(values, (j - 1) as nat, p + 1);
                    let es = entry(values, (j - 1) as nat, p + 2);
                    assert(stands_for(prev@[p as int], en));
                    assert(stands_for(prev@[p + 1], ec));
                    assert(stands_for(prev@[p + 2], es));
                    if j >= 2 {
                        let ew = entry(values, (j - 2) as nat, p + 2);
                        assert(stands_for(before@[p + 2], ew));
                        assert(stands_for(e, later_cross(en, ec, es, ew)));
                    } else {
                        assert(stands_for(e, first_cross(en, ec, es)));
                    }
                    assert(stands_for(e, entry(values, j as nat, p as int)));
                }
                next.push(e);
                p = p + 1;
            }
            let last = count - 1;
            proof {
                assert(column_length(values, j as nat) == count);
                assert(stands_for(next@[last as int], entry(values, j as nat, last as int)));
                assert(stands_for(prev@[last as int], entry(values, (j - 1) as nat, last as int)));
                assert(stands_for(prev@[last + 1], entry(values, (j - 1) as nat, last + 1)));
                assert(stands_for(prev@[last + 2], entry(values, (j - 1) as nat, last + 2)));
            }
            match (next[last], prev[last], prev[last + 1], prev[last + 2]) {
                (Some(e), Some(n), Some(c), Some(s)) => {
                    let error = distance(s, c) + distance(e, s) + distance(c, n);
                    if error <= best_error {
                        best = e;
                        best_error = error;
                    }
                },
                _ => {},
            }
            before = prev;
            prev = next;
            j = j + 1;
        }
        proof {
            assert(j - 1 == (len - 1) / 2);
        }
        best
    }

    /// Appends a partial estimate and returns the extrapolated estimate with the
    /// estimate of its error.
    ///
    /// While fewer than three partial estimates are there, the estimate is
    /// `value` itself and its error is unknown, which the largest value stands
    /// for. The same value stands for the error until three extrapolated
    /// estimates are there to compare the new one with.
    pub fn append(&mut self, value: i64) -> (r: (i64, u64))
        requires
            old(self)@.wf(),
        ensures
            final(self)@.wf(),
            final(self)@ == old(self)@.appended(value),
            r.0 == old(self)@.estimate(value),
            r.1 == old(self)@.error(value),
    {
        if self.values.len() >= TABLE_CAPACITY {
            self.values.remove(0);
        }
        self.values.push(value);
        if self.values.len() < 3 {
            return (value, u64::MAX);
        }
        let e = self.accelerate();
        if self.recent.len() < 3 {
            self.recent.push(e);
            (e, u64::MAX)
        } else {
            let spread = saturate_unsigned(
                distance(e, self.recent[0]) + distance(e, self.recent[1]) + distance(
                    e,
                    self.recent[2],
                ),
            );
            self.recent.remove(0);
            self.recent.push(e);
            if spread < ERROR_FLOOR {
                (e, ERROR_FLOOR)
            } else {
                (e, spread)
            }
        }
    }
}

/// The mathematical content of an accelerator.
pub struct AcceleratorModel {
    pub table: TableModel,
    /// The extrapolated estimate with the least error estimate so far.
    pub best: i64,
    /// Its error estimate; the largest value while there is none.
    pub best_error: u64,
}

impl AcceleratorModel {
    /// The accelerator that has seen nothing.
    pub open spec fn fresh() -> AcceleratorModel {
        AcceleratorModel {
            table: TableModel { values: Seq::<i64>::empty(), recent: Seq::<i64>::empty() },
            best: 0,
            best_error: u64::MAX,
        }
    }

    /// The accelerator after the partial estimate `area` has been observed.
    pub open spec fn observed(self, area: i64) -> AcceleratorModel {
        let e = self.table.estimate(area);
        let error = self.table.error(area);
        if error < self.best_error {
            AcceleratorModel {
                table: self.table.appended(area),
                best: e as i64,
                best_error: error as u64,
            }
        } else {
            AcceleratorModel { table: self.table.appended(area), ..self }
        }
    }
}

/// An extrapolation table together with the best extrapolated estimate that it
/// has given so far.
pub struct Accelerator {
    table: ExtrapolationTable,
    best: i64,
    best_error: u64,
}

impl View for Accelerator {
    type V = AcceleratorModel;

    closed spec fn view(&self) -> AcceleratorModel {
        AcceleratorModel { table: self.table@, best: self.best, best_error: self.best_error }
    }
}

impl Accelerator {
    /// An accelerator that has seen nothing.
    pub fn new() -> (r: Accelerator)
        ensures
            r@.table.wf(),
            r@ == AcceleratorModel::fresh(),
    {
        let r = Accelerator { table: ExtrapolationTable::new(), best: 0, best_error: u64::MAX };
        proof {
            assert(r@.table.values =~= Seq::<i64>::empty());
            assert(r@.table.recent =~= Seq::<i64>::empty());
        }
        r
    }

    /// Feeds the partial estimate `area` into the table and keeps the
    /// extrapolated estimate if its error estimate is the least so far.
    pub fn observe(&mut self, area: i64)
        requires
            old(self)@.table.wf(),
        ensures
            final(self)@.table.wf(),
            final(self)@ == old(self)@.observed(area),
    {
        let (e, error) = self.table.append(area);
        if error < self.best_error {
            self.best = e;
            self.best_error = error;
        }
    }

    /// The best extrapolated estimate so far and its error estimate.
    pub fn best(&self) -> (r: (i64, u64))
        ensures
            r.0 == self@.best,
            r.1 == self@.best_error,
    {
        (self.best, self.best_error)
    }
}

} // verus!
