//! Gauss-Legendre rules computed from the recurrence of the Legendre
//! polynomials.
//!
//! The roots of the polynomial of degree `k` lie between those of the
//! polynomial of degree `k - 1`, so the roots are found degree by degree, each
//! by bisection between two roots of the degree before. The values here are
//! multiples of `2^-60`, and every step rounds: what is stated of the results is
//! what this arithmetic gives, and a table made of them is used only after it
//! has been found well formed.
use crate::fixedpoint::truncated_quotient;
use vstd::prelude::*;

verus! {

/// The number one in the unit of the values of this module.
pub const UNIT: i64 = 0x1000_0000_0000_0000;

/// The largest number of points for which a rule is computed.
pub const MOST_COMPUTED: usize = 0x7fff_ffff;

/// The value lies between minus one and one.
pub open spec fn unit_range(x: int) -> bool {
    -UNIT <= x <= UNIT
}

/// The value narrowed to the range between minus one and one.
pub open spec fn clipped(x: int) -> int {
    if x < -UNIT {
        -UNIT as int
    } else if x > UNIT {
        UNIT as int
    } else {
        x
    }
}

/// The product of two values, rounded towards zero and narrowed.
pub open spec fn times_of(x: int, y: int) -> int {
    clipped(truncated_quotient(x * y, UNIT as int))
}

/// One step of the recurrence `(k + 1) P(k + 1) = (2 k + 1) x P(k) - k P(k - 1)`
/// from the values `here` of degree `k` and `before` of degree `k - 1`.
pub open spec fn stepped(k: int, x: int, here: int, before: int) -> int {
    clipped(truncated_quotient((2 * k + 1) * times_of(x, here) - k * before, k + 1))
}

/// The Legendre polynomial of degree `n` at `x`, as the recurrence gives it.
pub open spec fn legendre_of(n: nat, x: int) -> int
    decreases n,
{
    if n == 0 {
        UNIT as int
    } else if n == 1 {
        x
    } else {
        stepped(n - 1, x, legendre_of((n - 1) as nat, x), legendre_of((n - 2) as nat, x))
    }
}

/// The polynomial of degree `n` is negative at `x`.
pub open spec fn negative_at(n: nat, x: int) -> bool {
    legendre_of(n, x) < 0
}

/// The point that bisection reaches from `low` and `high`, where `negative` is
/// the sign that the lower end keeps.
pub open spec fn bisected(n: nat, negative: bool, low: int, high: int) -> int
    decreases high - low,
{
    if high - low <= 1 {
        high
    } else {
        let mid = low + (high - low) / 2;
        if negative_at(n, mid) == negative {
            bisected(n, negative, mid, high)
        } else {
            bisected(n, negative, low, mid)
        }
    }
}

/// The root of the polynomial of degree `n` that bisection finds between `lo`
/// and `hi`.
pub open spec fn root_between(n: nat, lo: int, hi: int) -> int {
    bisected(n, negative_at(n, lo), lo, hi)
}

/// The upper end of the `j`-th bracket: the next root of the degree before, or
/// one behind the last.
pub open spec fn bracket_end(prev: Seq<i64>, j: int) -> int {
    if j + 1 < prev.len() {
        prev[j + 1] as int
    } else {
        UNIT as int
    }
}

/// The roots at and above zero of the polynomial of degree `k`, from those of
/// the degree before: zero for an odd degree, then one root in every bracket.
pub open spec fn next_roots(k: nat, prev: Seq<i64>) -> Seq<i64> {
    Seq::new(
        prev.len() + k % 2,
        |i: int|
            if k % 2 == 1 && i == 0 {
                0i64
            } else {
                root_between(k, prev[i - k % 2] as int, bracket_end(prev, i - k % 2)) as i64
            },
    )
}

/// The roots at and above zero of the polynomial of degree `n`, ascending.
pub open spec fn roots_of(n: nat) -> Seq<i64>
    decreases n,
{
    if n <= 1 {
        seq![0i64]
    } else {
        next_roots(n, roots_of((n - 1) as nat))
    }
}

/// The roots lie between zero and one, and none lies below the one before it.
pub open spec fn ordered_roots(r: Seq<i64>) -> bool {
    &&& forall|j: int| 0 <= j < r.len() ==> 0 <= #[trigger] r[j] <= UNIT
    &&& forall|i: int, j: int| 0 <= i <= j < r.len() ==> r[i] <= r[j]
}

/// The weight of the root `x` of the polynomial of degree `n`, in multiples of
/// `2^-56`: `2 (1 - x^2) / (n P(n - 1)(x))^2`. None where the square of the
/// polynomial of the degree before rounds to zero, or the weight is too large.
pub open spec fn weight_of(n: nat, x: int) -> Option<u64> {
    let p = legendre_of((n - 1) as nat, x);
    let below = n * n * times_of(p, p);
    let rest = UNIT - times_of(x, x);
    let coarse = (2 * rest * UNIT) / below / 16;
    if below <= 0 || coarse > u64::MAX {
        None
    } else {
        Some(coarse as u64)
    }
}

/// The value narrowed to the range between minus one and one.
pub fn clip(x: i128) -> (r: i64)
    ensures
        r == clipped(x as int),
{
    if x < -(UNIT as i128) {
        -UNIT
    } else if x > UNIT as i128 {
        UNIT
    } else {
        x as i64
    }
}

/// The product of two values between minus one and one.
pub fn times(x: i64, y: i64) -> (r: i64)
    requires
        unit_range(x as int),
        unit_range(y as int),
    ensures
        r == times_of(x as int, y as int),
        unit_range(r as int),
{
    assert(-0x1000_0000_0000_0000 * 0x1000_0000_0000_0000 <= (x as int) * (y as int)
        <= 0x1000_0000_0000_0000 * 0x1000_0000_0000_0000) by (nonlinear_arith)
        requires
            -0x1000_0000_0000_0000 <= x <= 0x1000_0000_0000_0000,
            -0x1000_0000_0000_0000 <= y <= 0x1000_0000_0000_0000,
    ;
    clip(((x as i128) * (y as i128)) / 0x1000_0000_0000_0000)
}

/// A value of the polynomial lies between minus one and one wherever the point
/// does.
pub proof fn lemma_legendre_range(n: nat, x: int)
    requires
        unit_range(x),
    ensures
        unit_range(legendre_of(n, x)),
    decreases n,
{
    if n >= 2 {
        lemma_legendre_range((n - 1) as nat, x);
        lemma_legendre_range((n - 2) as nat, x);
    }
}

/// The Legendre polynomials of the degrees `n` and `n - 1` at `x`.
pub fn legendre_values(n: usize, x: i64) -> (r: (i64, i64))
    requires
        1 <= n <= MOST_COMPUTED,
        unit_range(x as int),
    ensures
        r.0 == legendre_of(n as nat, x as int),
        r.1 == legendre_of((n - 1) as nat, x as int),
        unit_range(r.0 as int),
        unit_range(r.1 as int),
{
    let mut before: i64 = UNIT;
    let mut here: i64 = x;
    let mut k: usize = 1;
    while k < n
        invariant
            1 <= k <= n <= MOST_COMPUTED,
            unit_range(x as int),
            unit_range(before as int),
            unit_range(here as int),
            here == legendre_of(k as nat, x as int),
            before == legendre_of((k - 1) as nat, x as int),
        decreases n - k,
    {
        let t = times(x, here);
        assert(-0x1_0000_0000 * 0x1000_0000_0000_0000 <= (2 * k + 1) * t <= 0x1_0000_0000
            * 0x1000_0000_0000_0000) by (nonlinear_arith)
            requires
                1 <= k <= 0x7fff_ffff,
                -0x1000_0000_0000_0000 <= t <= 0x1000_0000_0000_0000,
        ;
        assert(-0x8000_0000 * 0x1000_0000_0000_0000 <= k * before <= 0x8000_0000
            * 0x1000_0000_0000_0000) by (nonlinear_arith)
            requires
                1 <= k <= 0x7fff_ffff,
                -0x1000_0000_0000_0000 <= before <= 0x1000_0000_0000_0000,
        ;
        let top: i128 = ((2 * k + 1) as i128) * (t as i128) - (k as i128) * (before as i128);
        let next = clip(top / ((k + 1) as i128));
        assert(next == stepped(k as int, x as int, here as int, before as int));
        before = here;
        here = next;
        k = k + 1;
    }
    (here, before)
}

/// Bisection stays between its ends.
pub proof fn lemma_bisected_between(n: nat, negative: bool, low: int, high: int)
    requires
        low <= high,
    ensures
        low <= bisected(n, negative, low, high) <= high,
    decreases high - low,
{
    if high - low > 1 {
        let mid = low + (high - low) / 2;
        if negative_at(n, mid) == negative {
            lemma_bisected_between(n, negative, mid, high);
        } else {
            lemma_bisected_between(n, negative, low, mid);
        }
    }
}

/// Where the polynomial has different signs at the two ends, bisection ends at
/// a change of sign: the polynomial has the sign of the lower end one step
/// below the point reached, and the other sign at that point.
pub proof fn lemma_bisection_finds_a_change(n: nat, negative: bool, low: int, high: int)
    requires
        low < high,
        negative_at(n, low) == negative,
        negative_at(n, high) != negative,
    ensures
        low < bisected(n, negative, low, high) <= high,
        negative_at(n, bisected(n, negative, low, high) - 1) == negative,
        negative_at(n, bisected(n, negative, low, high)) != negative,
    decreases high - low,
{
    if high - low > 1 {
        let mid = low + (high - low) / 2;
        if negative_at(n, mid) == negative {
            lemma_bisection_finds_a_change(n, negative, mid, high);
        } else {
            lemma_bisection_finds_a_change(n, negative, low, mid);
        }
    }
}

/// The root of the polynomial of degree `n` between `lo` and `hi`, by
/// bisection.
pub fn bisect(n: usize, lo: i64, hi: i64) -> (r: i64)
    requires
        1 <= n <= MOST_COMPUTED,
        0 <= lo <= hi <= UNIT,
    ensures
        r == root_between(n as nat, lo as int, hi as int),
        lo <= r <= hi,
{
    let negative = legendre_values(n, lo).0 < 0;
    let mut low = lo;
    let mut high = hi;
    while high - low > 1
        invariant
            1 <= n <= MOST_COMPUTED,
            0 <= lo <= low <= high <= hi <= UNIT,
            negative == negative_at(n as nat, lo as int),
            bisected(n as nat, negative, low as int, high as int) == root_between(
                n as nat,
                lo as int,
                hi as int,
            ),
        decreases high - low,
    {
        let mid = low + (high - low) / 2;
        if (legendre_values(n, mid).0 < 0) == negative {
            low = mid;
        } else {
            high = mid;
        }
    }
    high
}

/// The roots of every degree are ordered, and there are as many of them as the
/// half of the rule has places.
pub proof fn lemma_roots_ordered(n: nat)
    requires
        n >= 1,
    ensures
        roots_of(n).len() == (n + 1) / 2,
        ordered_roots(roots_of(n)),
        n >= 2 ==> forall|j: int|
            0 <= j < roots_of((n - 1) as nat).len() ==> {
                &&& roots_of((n - 1) as nat)[j] <= #[trigger] roots_of(n)[j + n % 2]
                &&& roots_of(n)[j + n % 2] <= bracket_end(roots_of((n - 1) as nat), j)
            },
    decreases n,
{
    if n >= 2 {
        let prev = roots_of((n - 1) as nat);
        let next = roots_of(n);
        lemma_roots_ordered((n - 1) as nat);
        assert forall|j: int| 0 <= j < prev.len() implies {
            &&& prev[j] <= #[trigger] next[j + n % 2]
            &&& next[j + n % 2] <= bracket_end(prev, j)
        } by {
            assert(prev[j] <= bracket_end(prev, j));
            lemma_bisected_between(
                n,
                negative_at(n, prev[j] as int),
                prev[j] as int,
                bracket_end(prev, j),
            );
        }
        assert forall|j: int| 0 <= j < next.len() implies 0 <= #[trigger] next[j] <= UNIT by {
            if !(n % 2 == 1 && j == 0) {
                assert(prev[j - n % 2] <= next[j - n % 2 + n % 2]);
            }
        }
        assert forall|i: int, j: int| 0 <= i <= j < next.len() implies next[i] <= next[j] by {
            if i < j {
                if n % 2 == 1 && i == 0 {
                    assert(0 <= next[j]);
                } else {
                    let p = i - n % 2;
                    let q = j - n % 2;
                    assert(next[p + n % 2] <= bracket_end(prev, p));
                    assert(prev[q] <= next[q + n % 2]);
                    assert(prev[p + 1] <= prev[q]);
                }
            }
        }
    }
}

/// The roots at and above zero of the polynomial of degree `n`, ascending.
pub fn roots(n: usize) -> (r: Vec<i64>)
    requires
        1 <= n <= MOST_COMPUTED,
    ensures
        r@ == roots_of(n as nat),
        r@.len() == (n + 1) / 2,
        ordered_roots(r@),
{
    let mut found: Vec<i64> = Vec::new();
    found.push(0);
    assert(found@ =~= roots_of(1));
    let mut k: usize = 2;
    while k <= n
        invariant
            2 <= k <= n + 1,
            n <= MOST_COMPUTED,
            found@ == roots_of((k - 1) as nat),
        decreases n + 1 - k,
    {
        proof {
            lemma_roots_ordered((k - 1) as nat);
            lemma_roots_ordered(k as nat);
        }
        let count = found.len();
        let mut next: Vec<i64> = Vec::new();
        if k % 2 == 1 {
            next.push(0);
        }
        let mut j: usize = 0;
        while j < count
            invariant
                2 <= k <= n <= MOST_COMPUTED,
                count == found@.len(),
                count == k / 2,
                j <= count,
                found@ == roots_of((k - 1) as nat),
                ordered_roots(found@),
                next@.len() == j + k % 2,
                forall|i: int| 0 <= i < next@.len() ==> next@[i] == roots_of(k as nat)[i],
            decreases count - j,
        {
            let lo = found[j];
            let hi = if j + 1 < count {
                found[j + 1]
            } else {
                UNIT
            };
            assert(hi == bracket_end(found@, j as int));
            let root = bisect(k, lo, hi);
            next.push(root);
            j = j + 1;
        }
        assert(next@ =~= roots_of(k as nat));
        found = next;
        k = k + 1;
    }
    proof {
        lemma_roots_ordered(n as nat);
    }
    found
}

/// The weight of the root `x` of the polynomial of degree `n`.
pub fn weight(n: usize, x: i64) -> (r: Option<u64>)
    requires
        1 <= n <= MOST_COMPUTED,
        0 <= x <= UNIT,
    ensures
        r == weight_of(n as nat, x as int),
{
    let p = legendre_values(n, x).1;
    let square = times(p, p);
    assert(1 <= n * n <= 0x4000_0000_0000_0000) by (nonlinear_arith)
        requires
            1 <= n <= 0x7fff_ffff,
    ;
    assert(-0x4000_0000_0000_0000 * 0x1000_0000_0000_0000 <= (n * n) * square
        <= 0x4000_0000_0000_0000 * 0x1000_0000_0000_0000) by (nonlinear_arith)
        requires
            1 <= n * n <= 0x4000_0000_0000_0000,
            -0x1000_0000_0000_0000 <= square <= 0x1000_0000_0000_0000,
    ;
    let below: i128 = ((n as i128) * (n as i128)) * (square as i128);
    if below <= 0 {
        return None;
    }
    let rest: i128 = (UNIT as i128) - (times(x, x) as i128);
    assert(0 <= 2 * rest * 0x1000_0000_0000_0000 <= 2 * 0x2000_0000_0000_0000
        * 0x1000_0000_0000_0000) by (nonlinear_arith)
        requires
            0 <= rest <= 0x2000_0000_0000_0000,
    ;
    let w: i128 = (2 * rest * 0x1000_0000_0000_0000) / below;
    let coarse = w / 16;
    if coarse > u64::MAX as i128 {
        None
    } else {
        Some(coarse as u64)
    }
}

} // verus!
