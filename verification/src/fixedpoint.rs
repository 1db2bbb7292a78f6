//! Fixed-point numbers and the few exact operations the quadrature code needs.
//!
//! A value `x` stands for the real number `x / ONE`. Products and quotients are
//! rounded toward zero and saturate at the ends of the `i64` range.
use vstd::prelude::*;

verus! {

/// Number of fractional bits of a fixed-point value.
pub const FRACTION_BITS: u32 = 40;

/// The fixed-point representation of the real number one.
pub const ONE: i64 = 0x100_0000_0000;

/// The absolute value of an integer.
pub open spec fn magnitude_of(x: int) -> int {
    if x >= 0 {
        x
    } else {
        -x
    }
}

/// The quotient `n / d` rounded toward zero, for a positive divisor.
pub open spec fn truncated_quotient(n: int, d: int) -> int
    recommends
        d > 0,
{
    if n >= 0 {
        n / d
    } else {
        -((-n) / d)
    }
}

/// The nearest `i64` to an integer.
pub open spec fn clamp_to_i64(x: int) -> int {
    if x < i64::MIN {
        i64::MIN as int
    } else if x > i64::MAX {
        i64::MAX as int
    } else {
        x
    }
}

/// The nearest `u64` to a non-negative integer.
pub open spec fn clamp_to_u64(x: int) -> int {
    if x < 0 {
        0
    } else if x > u64::MAX {
        u64::MAX as int
    } else {
        x
    }
}

/// The fixed-point product of two values: `a * b / ONE`, rounded toward zero
/// and saturated.
pub open spec fn product_of(a: int, b: int) -> int {
    clamp_to_i64(truncated_quotient(a * b, ONE as int))
}

/// The fixed-point quotient of two values: `a * ONE / b`, rounded toward zero
/// and saturated. The sign is that of the real quotient.
pub open spec fn quotient_of(a: int, b: int) -> int
    recommends
        b != 0,
{
    if b > 0 {
        clamp_to_i64(truncated_quotient(a * ONE, b))
    } else {
        clamp_to_i64(truncated_quotient(-a * ONE, -b))
    }
}

/// Absolute value, as an unsigned number so that `i64::MIN` has one.
pub fn magnitude(x: i64) -> (r: u64)
    ensures
        r == magnitude_of(x as int),
{
    if x >= 0 {
        x as u64
    } else {
        (-(x as i128)) as u64
    }
}

/// Narrows a wide signed value, saturating at the ends of the `i64` range.
pub fn saturate(x: i128) -> (r: i64)
    ensures
        r == clamp_to_i64(x as int),
{
    if x < i64::MIN as i128 {
        i64::MIN
    } else if x > i64::MAX as i128 {
        i64::MAX
    } else {
        x as i64
    }
}

/// Narrows a wide unsigned value, saturating at `u64::MAX`.
pub fn saturate_unsigned(x: u128) -> (r: u64)
    ensures
        r == clamp_to_u64(x as int),
{
    if x > u64::MAX as u128 {
        u64::MAX
    } else {
        x as u64
    }
}

/// Negation that maps `i64::MIN` to `i64::MAX`.
pub fn negate(x: i64) -> (r: i64)
    ensures
        r == clamp_to_i64(-(x as int)),
{
    if x == i64::MIN {
        i64::MAX
    } else {
        -x
    }
}

/// Fixed-point multiplication.
pub fn product(a: i64, b: i64) -> (r: i64)
    ensures
        r == product_of(a as int, b as int),
{
    assert(-0x4000_0000_0000_0000_0000_0000_0000_0000 <= (a as int) * (b as int)
        <= 0x4000_0000_0000_0000_0000_0000_0000_0000) by (nonlinear_arith)
        requires
            -0x8000_0000_0000_0000 <= a <= 0x7fff_ffff_ffff_ffff,
            -0x8000_0000_0000_0000 <= b <= 0x7fff_ffff_ffff_ffff,
    ;
    let wide: i128 = (a as i128) * (b as i128);
    saturate(wide / (ONE as i128))
}

/// Fixed-point division by a non-zero value.
pub fn quotient(a: i64, b: i64) -> (r: i64)
    requires
        b != 0,
    ensures
        r == quotient_of(a as int, b as int),
{
    let wide: i128 = (a as i128) * 0x100_0000_0000;
    if b > 0 {
        saturate(wide / (b as i128))
    } else {
        saturate((-wide) / (-(b as i128)))
    }
}

/// The point halfway between two ordered values, rounded toward the lower one.
pub fn midpoint(a: i64, b: i64) -> (r: i64)
    requires
        a <= b,
    ensures
        r == a + (b - a) / 2,
        a <= r <= b,
{
    let width: i128 = (b as i128) - (a as i128);
    ((a as i128) + width / 2) as i64
}

/// `s` is the integer part of the square root of `n`.
pub open spec fn is_integer_root(n: int, s: int) -> bool {
    0 <= s && s * s <= n < (s + 1) * (s + 1)
}

/// The integer part of the square root of a non-negative integer.
pub open spec fn integer_root(n: int) -> int {
    choose|s: int| is_integer_root(n, s)
}

/// A non-negative integer has one integer root only.
pub proof fn lemma_integer_root_unique(n: int, s: int, t: int)
    requires
        is_integer_root(n, s),
        is_integer_root(n, t),
    ensures
        s == t,
{
    if s < t {
        assert((s + 1) * (s + 1) <= t * t) by (nonlinear_arith)
            requires
                0 <= s + 1 <= t,
        ;
    } else if t < s {
        assert((t + 1) * (t + 1) <= s * s) by (nonlinear_arith)
            requires
                0 <= t + 1 <= s,
        ;
    }
}

/// The integer part of the square root, found by bisection.
pub fn root(n: u128) -> (r: u64)
    ensures
        is_integer_root(n as int, r as int),
        r == integer_root(n as int),
{
    let mut lo: u128 = 0;
    let mut hi: u128 = 0x1_0000_0000_0000_0000;
    assert(0x1_0000_0000_0000_0000int * 0x1_0000_0000_0000_0000int > u128::MAX) by (nonlinear_arith);
    assert(0int * 0int == 0) by (nonlinear_arith);
    while hi - lo > 1
        invariant
            lo < hi <= 0x1_0000_0000_0000_0000,
            (lo as int) * (lo as int) <= n,
            (n as int) < (hi as int) * (hi as int),
        decreases hi - lo,
    {
        let mid: u128 = lo + (hi - lo) / 2;
        assert((mid as int) * (mid as int) <= u128::MAX) by (nonlinear_arith)
            requires
                0 <= mid <= 0xffff_ffff_ffff_ffff,
        ;
        if mid * mid <= n {
            lo = mid;
        } else {
            hi = mid;
        }
    }
    proof {
        assert(hi == lo + 1);
        assert(is_integer_root(n as int, lo as int));
        lemma_integer_root_unique(n as int, lo as int, integer_root(n as int));
    }
    lo as u64
}

} // verus!
