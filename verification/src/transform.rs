//! The mappings through which the rules sample an integrand.
//!
//! An infinite range is mapped onto `(0, 1]`: with `x = (1 - t) / t` the half
//! line `[0, inf)` becomes the range `(0, 1]` of `t`, and `dx = -dt / t^2`. The
//! integrand over the half line `[a, inf)` is therefore replaced by
//! `f(a + (1 - t) / t) / t^2` over `(0, 1]`, and so for the other infinite
//! ranges. For a Cauchy principal value the two sides of the singular point
//! are folded onto each other, and the integrand is replaced by the difference
//! of its values at the same distance on both sides, divided by the distance.
//! Where a value leaves the range of the fixed-point numbers it saturates.
use vstd::prelude::*;
use crate::fixedpoint::{clamp_to_i64, negate, ONE, quotient, quotient_of, saturate};

verus! {

/// The distance `(1 - t) / t` that the parameter `t` stands for.
pub open spec fn ray_of(t: i64) -> int
    recommends
        t > 0,
{
    quotient_of(ONE - t, t as int)
}

/// The point `a + (1 - t) / t` of the range above `a`.
pub open spec fn upward_of(a: i64, t: i64) -> int {
    clamp_to_i64(a + ray_of(t))
}

/// The point `b - (1 - t) / t` of the range below `b`.
pub open spec fn downward_of(b: i64, t: i64) -> int {
    clamp_to_i64(b - ray_of(t))
}

/// The value `y / t^2`: the integrand value `y` times the derivative of the
/// change of variable.
pub open spec fn weighed_of(y: i64, t: i64) -> int
    recommends
        t > 0,
{
    quotient_of(quotient_of(y as int, t as int), t as int)
}

/// The sum of two integrand values, saturated.
pub open spec fn paired_of(y1: i64, y2: i64) -> int {
    clamp_to_i64(y1 + y2)
}

/// The distance `(1 - t) / t` that the parameter `t` stands for.
pub fn ray(t: i64) -> (r: i64)
    requires
        t > 0,
    ensures
        r == ray_of(t),
{
    quotient(ONE - t, t)
}

/// The point `a + (1 - t) / t` of the range above `a`.
pub fn upward(a: i64, t: i64) -> (r: i64)
    requires
        t > 0,
    ensures
        r == upward_of(a, t),
{
    saturate((a as i128) + (ray(t) as i128))
}

/// The point `b - (1 - t) / t` of the range below `b`.
pub fn downward(b: i64, t: i64) -> (r: i64)
    requires
        t > 0,
    ensures
        r == downward_of(b, t),
{
    saturate((b as i128) - (ray(t) as i128))
}

/// The value `y / t^2`.
pub fn weighed(y: i64, t: i64) -> (r: i64)
    requires
        t > 0,
    ensures
        r == weighed_of(y, t),
{
    quotient(quotient(y, t), t)
}

/// The sum of two integrand values, saturated.
pub fn paired(y1: i64, y2: i64) -> (r: i64)
    ensures
        r == paired_of(y1, y2),
{
    saturate((y1 as i128) + (y2 as i128))
}

/// The value of the folded integrand of a principal value at the distance
/// `s > 0` from the singular point: the difference of the integrand values on
/// the two sides of the singular point, divided by the distance.
pub open spec fn cauchy_value_of(above: i64, below: i64, s: i64) -> int {
    quotient_of(clamp_to_i64(above - below), s as int)
}

/// The value of the folded integrand at the distance `s`.
pub fn cauchy_value(above: i64, below: i64, s: i64) -> (r: i64)
    requires
        s > 0,
    ensures
        r == cauchy_value_of(above, below, s),
{
    quotient(saturate((above as i128) - (below as i128)), s)
}

/// The value `y` is what one side contributes to a principal value over
/// `[lo, hi]` at the point `x`: a value of the integrand `f` where `x` lies in
/// the range, and zero where it does not.
pub open spec fn side<F: Fn(i64) -> i64>(f: &F, lo: i64, hi: i64, x: int, y: i64) -> bool {
    if lo <= x <= hi {
        call_ensures(*f, (x as i64,), y)
    } else {
        y == 0
    }
}

/// A mapping through which an integrand is sampled.
#[derive(Clone, Copy, Debug, PartialEq, Eq, Structural)]
pub enum Mapping {
    /// The integrand itself: the value at `t` is `f(t)`.
    Identity,
    /// The range above a bound `a`, mapped onto `(0, 1]`: the value at `t` is
    /// `f(a + (1 - t) / t) / t^2`, and zero outside `(0, 1]`.
    Upward(i64),
    /// The range below a bound `b`, mapped onto `(0, 1]`: the value at `t` is
    /// `f(b - (1 - t) / t) / t^2`, and zero outside `(0, 1]`.
    Downward(i64),
    /// The whole line, both halves mapped onto `(0, 1]` at once: the value at
    /// `t` is `(f(x) + f(-x)) / t^2` with `x = (1 - t) / t`, and zero for
    /// `t <= 0`.
    WholeLine,
    /// The range `[lo, hi]` folded about the singular point `c` of a principal
    /// value: the value at the distance `s > 0` is `(f(c + s) - f(c - s)) / s`,
    /// where a point outside `[lo, hi]` contributes zero; zero for `s <= 0`.
    Cauchy { lo: i64, hi: i64, c: i64 },
}

impl Mapping {
    /// The integrand `f` may be called wherever the mapping calls it for a
    /// parameter in `[from, to]`.
    pub open spec fn admits<F: Fn(i64) -> i64>(self, f: &F, from: i64, to: i64) -> bool {
        match self {
            Mapping::Identity => forall|x: i64| from <= x <= to ==> call_requires(*f, (x,)),
            Mapping::Upward(a) => forall|x: i64| a <= x ==> call_requires(*f, (x,)),
            Mapping::Downward(b) => forall|x: i64| x <= b ==> call_requires(*f, (x,)),
            Mapping::WholeLine => forall|x: i64| call_requires(*f, (x,)),
            Mapping::Cauchy { lo, hi, c } => forall|x: i64|
                lo <= x <= hi ==> call_requires(*f, (x,)),
        }
    }

    /// The value `y` is a value of the mapped integrand at the parameter `t`.
    pub open spec fn relates<F: Fn(i64) -> i64>(self, f: &F, t: i64, y: i64) -> bool {
        match self {
            Mapping::Identity => call_ensures(*f, (t,), y),
            Mapping::Upward(a) => if t <= 0 || t > ONE {
                y == 0
            } else {
                exists|v: i64|
                    call_ensures(*f, (upward_of(a, t) as i64,), v) && y == weighed_of(v, t)
            },
            Mapping::Downward(b) => if t <= 0 || t > ONE {
                y == 0
            } else {
                exists|v: i64|
                    call_ensures(*f, (downward_of(b, t) as i64,), v) && y == weighed_of(v, t)
            },
            Mapping::WholeLine => if t <= 0 {
                y == 0
            } else {
                exists|v: i64, w: i64|
                    call_ensures(*f, (upward_of(0, t) as i64,), v) && call_ensures(
                        *f,
                        (clamp_to_i64(-upward_of(0, t)) as i64,),
                        w,
                    ) && y == weighed_of(paired_of(v, w) as i64, t)
            },
            Mapping::Cauchy { lo, hi, c } => if t <= 0 {
                y == 0
            } else {
                exists|above: i64, below: i64|
                    side(f, lo, hi, c + t, above) && side(f, lo, hi, c - t, below) && y
                        == cauchy_value_of(above, below, t)
            },
        }
    }

    /// The value of the mapped integrand at the parameter `t`.
    pub fn apply<F: Fn(i64) -> i64>(self, f: &F, t: i64) -> (y: i64)
        requires
            self.admits(f, t, t),
        ensures
            self.relates(f, t, y),
    {
        match self {
            Mapping::Identity => f(t),
            Mapping::Upward(a) => {
                if t <= 0 || t > ONE {
                    0
                } else {
                    let v = f(upward(a, t));
                    weighed(v, t)
                }
            },
            Mapping::Downward(b) => {
                if t <= 0 || t > ONE {
                    0
                } else {
                    let v = f(downward(b, t));
                    weighed(v, t)
                }
            },
            Mapping::WholeLine => {
                if t <= 0 {
                    0
                } else {
                    let x = upward(0, t);
                    let v = f(x);
                    let w = f(negate(x));
                    weighed(paired(v, w), t)
                }
            },
            Mapping::Cauchy { lo, hi, c } => {
                if t <= 0 {
                    0
                } else {
                    let up: i128 = (c as i128) + (t as i128);
                    let down: i128 = (c as i128) - (t as i128);
                    let above = if (lo as i128) <= up && up <= (hi as i128) {
                        f(up as i64)
                    } else {
                        0
                    };
                    let below = if (lo as i128) <= down && down <= (hi as i128) {
                        f(down as i64)
                    } else {
                        0
                    };
                    proof {
                        assert(side(f, lo, hi, c + t, above));
                        assert(side(f, lo, hi, c - t, below));
                    }
                    cauchy_value(above, below, t)
                }
            },
        }
    }
}

} // verus!
