//! Elementary functions in fixed-point arithmetic: sine and cosine, the
//! natural logarithm, the exponential function and real powers.
//!
//! The arguments and the results are counts of quanta. Inside, the functions
//! work in multiples of `2^-60` and sum their series by Horner's scheme, every
//! step rounded towards zero. What is stated of a result is the value that
//! this arithmetic gives, together with the range in which it lies.
use crate::fixedpoint::{
    clamp_to_i64,
    magnitude,
    magnitude_of,
    ONE,
    product,
    product_of,
    truncated_quotient,
};
use vstd::arithmetic::power2::{
    lemma2_to64,
    lemma2_to64_rest,
    lemma_pow2_strictly_increases,
    lemma_pow2_unfold,
    pow2,
};
use vstd::prelude::*;

verus! {

/// The number one in the unit in which the series are summed.
pub const FINE: u128 = 0x1000_0000_0000_0000;

/// A full turn, `2 pi`, in that unit.
pub const TURN: u128 = 0x6487_ed51_10b4_611a;

/// A quarter of a turn in that unit.
pub const QUARTER: u128 = 0x1921_fb54_442d_1846;

/// The number of fine units in a quantum.
pub const FINE_PER_QUANTUM: u128 = 0x10_0000;

/// The terms that the series of sine and cosine are summed to.
pub const CIRCULAR_TERMS: u128 = 10;

/// The product of two fine values, rounded down.
pub open spec fn fine_product_of(x: int, y: int) -> int {
    x * y / (FINE as int)
}

/// The factor by which the `k`-th term of the series of the sine (`odd`) or of
/// the cosine exceeds the term before it, inverted.
pub open spec fn series_divisor(k: int, odd: bool) -> int {
    if odd {
        (2 * k) * (2 * k + 1)
    } else {
        (2 * k - 1) * (2 * k)
    }
}

/// Horner's scheme for the series of the cosine, `1 - s/2! + s^2/4! - ...`, or
/// of the sine over its argument, `1 - s/3! + s^2/5! - ...`, in the square `s`
/// of the angle, from the `k`-th term on. A step that would fall below zero
/// is zero.
pub open spec fn circular_series(s: int, k: int, odd: bool) -> int
    decreases CIRCULAR_TERMS + 1 - k,
{
    if k > CIRCULAR_TERMS {
        FINE as int
    } else {
        let term = fine_product_of(s, circular_series(s, k + 1, odd)) / series_divisor(k, odd);
        if term >= FINE {
            0
        } else {
            FINE - term
        }
    }
}

/// The sine of an angle of at most a quarter turn, in fine units.
pub open spec fn quarter_sine_of(r: int) -> int {
    let v = fine_product_of(r, circular_series(fine_product_of(r, r), 1, true));
    if v > FINE {
        FINE as int
    } else {
        v
    }
}

/// The cosine of an angle of at most a quarter turn, in fine units.
pub open spec fn quarter_cosine_of(r: int) -> int {
    circular_series(fine_product_of(r, r), 1, false)
}

/// The angle of `theta` quanta, without its sign, within one turn, in fine
/// units.
pub open spec fn turned(theta: int) -> int {
    (magnitude_of(theta) * FINE_PER_QUANTUM) % (TURN as int)
}

/// The quarter of the turn in which the angle `t` lies.
pub open spec fn quadrant_of(t: int) -> int {
    if t / (QUARTER as int) >= 3 {
        3
    } else {
        t / (QUARTER as int)
    }
}

/// What the angle `t` exceeds the start of its quarter by.
pub open spec fn rest_of(t: int) -> int {
    let r = t - quadrant_of(t) * QUARTER;
    if r > QUARTER {
        QUARTER as int
    } else {
        r
    }
}

/// The sine of `theta`, in quanta.
pub open spec fn sine_of(theta: int) -> int {
    let q = quadrant_of(turned(theta));
    let r = rest_of(turned(theta));
    let v = (if q % 2 == 0 {
        quarter_sine_of(r)
    } else {
        quarter_cosine_of(r)
    }) / (FINE_PER_QUANTUM as int);
    if (q >= 2) != (theta < 0) {
        -v
    } else {
        v
    }
}

/// The cosine of `theta`, in quanta.
pub open spec fn cosine_of(theta: int) -> int {
    let q = quadrant_of(turned(theta));
    let r = rest_of(turned(theta));
    let v = (if q % 2 == 0 {
        quarter_cosine_of(r)
    } else {
        quarter_sine_of(r)
    }) / (FINE_PER_QUANTUM as int);
    if q == 1 || q == 2 {
        -v
    } else {
        v
    }
}

/// The product of two fine values, rounded down.
fn fine_product(x: u128, y: u128) -> (r: u128)
    requires
        x <= 4 * FINE,
        y <= 4 * FINE,
    ensures
        r == fine_product_of(x as int, y as int),
        r <= 4 * y,
        r <= 4 * x,
{
    assert(x * y <= 0x4000_0000_0000_0000 * 0x4000_0000_0000_0000 && x * y
        <= 0x4000_0000_0000_0000 * y && x * y <= x * 0x4000_0000_0000_0000) by (nonlinear_arith)
        requires
            x <= 0x4000_0000_0000_0000,
            y <= 0x4000_0000_0000_0000,
    ;
    x * y / FINE
}

/// The square of an angle of at most a quarter turn.
fn square(r: u128) -> (s: u128)
    requires
        r <= QUARTER,
    ensures
        s == fine_product_of(r as int, r as int),
        s <= 4 * FINE,
{
    assert(r * r <= 0x1921_fb54_442d_1846 * 0x1921_fb54_442d_1846) by (nonlinear_arith)
        requires
            r <= 0x1921_fb54_442d_1846,
    ;
    r * r / FINE
}

/// Sums the series of the cosine, or of the sine over its argument, in the
/// square `s` of the angle.
fn circular(s: u128, odd: bool) -> (acc: u128)
    requires
        s <= 4 * FINE,
    ensures
        acc == circular_series(s as int, 1, odd),
        acc <= FINE,
{
    let mut acc: u128 = FINE;
    let mut k: u128 = CIRCULAR_TERMS;
    while k >= 1
        invariant
            k <= CIRCULAR_TERMS,
            s <= 4 * FINE,
            acc <= FINE,
            acc == circular_series(s as int, k + 1, odd),
        decreases k,
    {
        let t = 2 * k;
        assert(1 <= (t - 1) * t <= 400 && 1 <= t * (t + 1) <= 500) by (nonlinear_arith)
            requires
                2 <= t <= 20,
        ;
        let d = if odd {
            t * (t + 1)
        } else {
            (t - 1) * t
        };
        let term = fine_product(s, acc) / d;
        acc = if term >= FINE {
            0
        } else {
            FINE - term
        };
        k = k - 1;
    }
    acc
}

/// The sine of an angle of at most a quarter turn, in fine units.
fn quarter_sine(r: u128) -> (v: u128)
    requires
        r <= QUARTER,
    ensures
        v == quarter_sine_of(r as int),
        v <= FINE,
{
    let s = square(r);
    let v = fine_product(r, circular(s, true));
    if v > FINE {
        FINE
    } else {
        v
    }
}

/// The cosine of an angle of at most a quarter turn, in fine units.
fn quarter_cosine(r: u128) -> (v: u128)
    requires
        r <= QUARTER,
    ensures
        v == quarter_cosine_of(r as int),
        v <= FINE,
{
    let s = square(r);
    circular(s, false)
}

/// The quarter of the turn in which the angle of `theta` quanta lies, and what
/// the angle exceeds the start of that quarter by.
fn phase(theta: i64) -> (r: (u128, u128))
    ensures
        r.0 == quadrant_of(turned(theta as int)),
        r.1 == rest_of(turned(theta as int)),
        r.0 <= 3,
        r.1 <= QUARTER,
{
    let t = ((magnitude(theta) as u128) * FINE_PER_QUANTUM) % TURN;
    let q = if t / QUARTER >= 3 {
        3
    } else {
        t / QUARTER
    };
    let r = t - q * QUARTER;
    if r > QUARTER {
        (q, QUARTER)
    } else {
        (q, r)
    }
}

/// The sine of `theta`.
pub fn sine(theta: i64) -> (r: i64)
    ensures
        r == sine_of(theta as int),
        -ONE <= r <= ONE,
{
    let (q, rest) = phase(theta);
    let fine = if q % 2 == 0 {
        quarter_sine(rest)
    } else {
        quarter_cosine(rest)
    };
    let v = (fine / FINE_PER_QUANTUM) as i64;
    if (q >= 2) != (theta < 0) {
        -v
    } else {
        v
    }
}

/// The cosine of `theta`.
pub fn cosine(theta: i64) -> (r: i64)
    ensures
        r == cosine_of(theta as int),
        -ONE <= r <= ONE,
{
    let (q, rest) = phase(theta);
    let fine = if q % 2 == 0 {
        quarter_cosine(rest)
    } else {
        quarter_sine(rest)
    };
    let v = (fine / FINE_PER_QUANTUM) as i64;
    if q == 1 || q == 2 {
        -v
    } else {
        v
    }
}

/// The sine is odd: the sine of the opposite angle is the opposite of the
/// sine.
pub proof fn lemma_sine_is_odd(theta: int)
    ensures
        sine_of(-theta) == -sine_of(theta),
{
    assert(magnitude_of(-theta) == magnitude_of(theta));
    if theta == 0 {
        assert(turned(0) == 0);
        assert(quadrant_of(0) == 0);
        assert(rest_of(0) == 0);
        assert(fine_product_of(0, 0) == 0);
        assert(quarter_sine_of(0) == 0) by {
            assert(fine_product_of(0, circular_series(0, 1, true)) == 0) by (nonlinear_arith);
        }
    }
}

/// The cosine is even: the opposite angle has the same cosine.
pub proof fn lemma_cosine_is_even(theta: int)
    ensures
        cosine_of(-theta) == cosine_of(theta),
{
    assert(magnitude_of(-theta) == magnitude_of(theta));
}

/// The natural logarithm of two, in fine units.
pub const LN_TWO: u128 = 0x0b17_217f_7d1c_f79b;

/// The terms that the series of the logarithm is summed to.
pub const LOGARITHM_TERMS: u128 = 13;

/// The terms that the series of the exponential function is summed to.
pub const EXPONENTIAL_TERMS: u128 = 14;

/// The arguments from which on the exponential function exceeds every number
/// of the library.
pub const EXPONENTIAL_CEILING: i64 = 0x1000_0000_0000;

/// The arguments below which the exponential function is less than a quantum.
pub const EXPONENTIAL_FLOOR: i64 = -0x2000_0000_0000;

/// The multiple of the logarithm of two by which an argument of the
/// exponential function is raised, so that it is not negative.
pub const EXPONENTIAL_SHIFT: u128 = 47;

/// The mantissa `m` halved, and the exponent `e` raised, until the mantissa is
/// below two.
pub open spec fn halved_down(m: int, e: int) -> (int, int)
    decreases m,
{
    if m >= 2 * FINE {
        halved_down(m / 2, e + 1)
    } else {
        (m, e)
    }
}

/// The mantissa `m` doubled, and the exponent `e` lowered, until the mantissa
/// is at least one.
pub open spec fn doubled_up(m: int, e: int) -> (int, int)
    decreases
            (if m < FINE {
                FINE - m
            } else {
                0
            }),
{
    if 1 <= m < FINE {
        doubled_up(2 * m, e - 1)
    } else {
        (m, e)
    }
}

/// The mantissa, in fine units from one to below two, and the binary exponent
/// of the positive number of `x` quanta.
pub open spec fn normalised(x: int) -> (int, int) {
    doubled_up(halved_down(x, 20).0, halved_down(x, 20).1)
}

/// Horner's scheme for the series `1 + s/3 + s^2/5 + ...` of the inverse
/// hyperbolic tangent over its argument, in the square `s` of the argument,
/// from the `k`-th term on.
pub open spec fn logarithm_series(s: int, k: int) -> int
    decreases LOGARITHM_TERMS - k,
{
    if k >= LOGARITHM_TERMS {
        (FINE as int) / (2 * k + 1)
    } else {
        (FINE as int) / (2 * k + 1) + fine_product_of(s, logarithm_series(s, k + 1))
    }
}

/// The logarithm of a mantissa `m` from one to below two, in fine units: twice
/// the inverse hyperbolic tangent of `(m - 1) / (m + 1)`.
pub open spec fn mantissa_logarithm_of(m: int) -> int {
    let z = (m - FINE) * FINE / (m + FINE);
    2 * fine_product_of(z, logarithm_series(fine_product_of(z, z), 0))
}

/// The natural logarithm of `x`, in quanta; of a number that is not positive,
/// the least number of the library.
pub open spec fn logarithm_of(x: int) -> int {
    if x <= 0 {
        i64::MIN as int
    } else {
        truncated_quotient(
            normalised(x).1 * LN_TWO + mantissa_logarithm_of(normalised(x).0),
            FINE_PER_QUANTUM as int,
        )
    }
}

/// Horner's scheme for the series `1 + r + r^2/2! + ...` of the exponential
/// function, from the `k`-th term on.
pub open spec fn exponential_series(r: int, k: int) -> int
    decreases EXPONENTIAL_TERMS + 1 - k,
{
    if k > EXPONENTIAL_TERMS {
        FINE as int
    } else {
        FINE + fine_product_of(r, exponential_series(r, k + 1)) / k
    }
}

/// The value halved `n` times, rounded down every time.
pub open spec fn halved(v: int, n: nat) -> int
    decreases n,
{
    if n == 0 {
        v
    } else {
        halved(v / 2, (n - 1) as nat)
    }
}

/// The value doubled `n` times.
pub open spec fn doubled(v: int, n: nat) -> int
    decreases n,
{
    if n == 0 {
        v
    } else {
        doubled(2 * v, (n - 1) as nat)
    }
}

/// The exponential function of `y`, in quanta: the series of what `y` exceeds
/// a multiple of the logarithm of two by, times the power of two of that
/// multiple. Zero below the floor, the greatest number of the library from
/// the ceiling on.
pub open spec fn exponential_of(y: int) -> int {
    if y < EXPONENTIAL_FLOOR {
        0
    } else if y >= EXPONENTIAL_CEILING {
        i64::MAX as int
    } else {
        let raised = y * FINE_PER_QUANTUM + EXPONENTIAL_SHIFT * LN_TWO;
        let k = raised / (LN_TWO as int);
        let series = exponential_series(raised % (LN_TWO as int), 1);
        if k >= 67 {
            clamp_to_i64(doubled(series, (k - 67) as nat))
        } else {
            halved(series, (67 - k) as nat)
        }
    }
}

/// The power of a base that is not negative, in quanta: the exponential
/// function of the exponent times the logarithm of the base. Every power of
/// exponent zero is one; the powers of zero are zero for a positive exponent
/// and the greatest number of the library for a negative one.
pub open spec fn power_of(base: int, exponent: int) -> int {
    if exponent == 0 {
        ONE as int
    } else if base <= 0 {
        if exponent > 0 {
            0
        } else {
            i64::MAX as int
        }
    } else {
        exponential_of(product_of(exponent, logarithm_of(base)))
    }
}

/// Brings the positive number of `x` quanta to a mantissa from one to below
/// two and a binary exponent.
fn normalise(x: i64) -> (r: (u128, i64))
    requires
        x > 0,
    ensures
        (r.0 as int, r.1 as int) == normalised(x as int),
        FINE <= r.0 < 2 * FINE,
        -40 <= r.1 <= 22,
{
    let mut m: u128 = x as u128;
    let mut e: i64 = 20;
    while m >= 2 * FINE
        invariant
            1 <= m,
            20 <= e <= 22,
            e == 20 ==> m < 0x8000_0000_0000_0000,
            e == 21 ==> m < 0x4000_0000_0000_0000,
            e == 22 ==> m < 0x2000_0000_0000_0000,
            e > 20 ==> m >= FINE,
            halved_down(m as int, e as int) == halved_down(x as int, 20),
        decreases m,
    {
        m = m / 2;
        e = e + 1;
    }
    proof {
        lemma2_to64();
    }
    while m < FINE
        invariant
            1 <= m < 2 * FINE,
            -40 <= e <= 22,
            e > 20 ==> m >= FINE,
            e <= 20 ==> m >= pow2((20 - e) as nat),
            doubled_up(m as int, e as int) == normalised(x as int),
        decreases 2 * FINE - m,
    {
        proof {
            lemma2_to64_rest();
            if 20 - e >= 60 {
                if 20 - e > 60 {
                    lemma_pow2_strictly_increases(60, (20 - e) as nat);
                }
                assert(false);
            }
            lemma_pow2_unfold((21 - e) as nat);
        }
        m = 2 * m;
        e = e - 1;
    }
    (m, e)
}

/// The logarithm of a mantissa from one to below two, in fine units.
fn mantissa_logarithm(m: u128) -> (r: u128)
    requires
        FINE <= m < 2 * FINE,
    ensures
        r == mantissa_logarithm_of(m as int),
        r <= 2 * FINE,
{
    let top = (m - FINE) * FINE;
    let z = top / (m + FINE);
    assert(z <= 0x800_0000_0000_0000) by (nonlinear_arith)
        requires
            z == top / ((m + 0x1000_0000_0000_0000) as u128),
            top == (m - 0x1000_0000_0000_0000) * 0x1000_0000_0000_0000,
            0x1000_0000_0000_0000 <= m < 0x2000_0000_0000_0000,
    ;
    let s = fine_product(z, z);
    assert(s <= 0x400_0000_0000_0000) by (nonlinear_arith)
        requires
            s == z * z / 0x1000_0000_0000_0000,
            z <= 0x800_0000_0000_0000,
    ;
    let mut k: u128 = LOGARITHM_TERMS;
    let mut acc: u128 = FINE / (2 * k + 1);
    while k > 0
        invariant
            k <= LOGARITHM_TERMS,
            s <= 0x400_0000_0000_0000,
            acc <= 2 * FINE,
            acc == logarithm_series(s as int, k as int),
        decreases k,
    {
        k = k - 1;
        let next = fine_product(s, acc);
        assert(next <= 0x800_0000_0000_0000) by (nonlinear_arith)
            requires
                next == s * acc / 0x1000_0000_0000_0000,
                s <= 0x400_0000_0000_0000,
                acc <= 0x2000_0000_0000_0000,
        ;
        acc = FINE / (2 * k + 1) + next;
    }
    let half = fine_product(z, acc);
    assert(half <= 0x1000_0000_0000_0000) by (nonlinear_arith)
        requires
            half == z * acc / 0x1000_0000_0000_0000,
            z <= 0x800_0000_0000_0000,
            acc <= 0x2000_0000_0000_0000,
    ;
    2 * half
}

/// The natural logarithm of `x`; of a number that is not positive, the least
/// number of the library.
pub fn logarithm(x: i64) -> (r: i64)
    ensures
        r == logarithm_of(x as int),
        x > 0 ==> -0x2000_0000_0000 <= r <= 0x2000_0000_0000,
{
    if x <= 0 {
        return i64::MIN;
    }
    let (m, e) = normalise(x);
    let part = mantissa_logarithm(m);
    assert(-40 * 0x0b17_217f_7d1c_f79b <= e * 0x0b17_217f_7d1c_f79b <= 22 * 0x0b17_217f_7d1c_f79b)
        by (nonlinear_arith)
        requires
            -40 <= e <= 22,
    ;
    let fine: i128 = (e as i128) * (LN_TWO as i128) + (part as i128);
    (fine / (FINE_PER_QUANTUM as i128)) as i64
}

/// Sums the series of the exponential function.
fn exponential_sum(r: u128) -> (acc: u128)
    requires
        r < LN_TWO,
    ensures
        acc == exponential_series(r as int, 1),
        FINE <= acc <= 4 * FINE,
{
    let mut acc: u128 = FINE;
    let mut k: u128 = EXPONENTIAL_TERMS;
    while k >= 1
        invariant
            k <= EXPONENTIAL_TERMS,
            r < LN_TWO,
            FINE <= acc <= 4 * FINE,
            acc == exponential_series(r as int, k + 1),
        decreases k,
    {
        let next = fine_product(r, acc);
        assert(next <= 0x2c5c_85fd_f473_de6c) by (nonlinear_arith)
            requires
                next == r * acc / 0x1000_0000_0000_0000,
                r <= 0x0b17_217f_7d1c_f79b,
                acc <= 0x4000_0000_0000_0000,
        ;
        acc = FINE + next / k;
        k = k - 1;
    }
    acc
}

/// The exponential function of `y`.
pub fn exponential(y: i64) -> (r: i64)
    ensures
        r == exponential_of(y as int),
        r >= 0,
{
    if y < EXPONENTIAL_FLOOR {
        return 0;
    }
    if y >= EXPONENTIAL_CEILING {
        return i64::MAX;
    }
    let raised: u128 = ((y as i128) * (FINE_PER_QUANTUM as i128) + (EXPONENTIAL_SHIFT * LN_TWO) as i128) as u128;
    let k = raised / LN_TWO;
    let series = exponential_sum(raised % LN_TWO);
    let mut v: u128 = series;
    if k >= 67 {
        let mut n: u128 = k - 67;
        while n > 0
            invariant
                n <= 4,
                v <= 0x4000_0000_0000_0000 * 16,
                n == 4 ==> v <= 0x4000_0000_0000_0000,
                n == 3 ==> v <= 0x4000_0000_0000_0000 * 2,
                n == 2 ==> v <= 0x4000_0000_0000_0000 * 4,
                n == 1 ==> v <= 0x4000_0000_0000_0000 * 8,
                doubled(v as int, n as nat) == doubled(series as int, (k - 67) as nat),
            decreases n,
        {
            v = 2 * v;
            n = n - 1;
        }
        if v > i64::MAX as u128 {
            i64::MAX
        } else {
            v as i64
        }
    } else {
        let mut n: u128 = 67 - k;
        while n > 0
            invariant
                v <= 4 * FINE,
                halved(v as int, n as nat) == halved(series as int, (67 - k) as nat),
            decreases n,
        {
            v = v / 2;
            n = n - 1;
        }
        v as i64
    }
}

/// The power of a base that is not negative.
pub fn power(base: i64, exponent: i64) -> (r: i64)
    requires
        base >= 0,
    ensures
        r == power_of(base as int, exponent as int),
        r >= 0,
{
    if exponent == 0 {
        ONE
    } else if base == 0 {
        if exponent > 0 {
            0
        } else {
            i64::MAX
        }
    } else {
        exponential(product(exponent, logarithm(base)))
    }
}

} // verus!
