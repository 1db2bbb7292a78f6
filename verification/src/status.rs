//! The outcome of an integration and the rules on tolerances.
use vstd::prelude::*;
use crate::fixedpoint::{magnitude, magnitude_of, ONE, truncated_quotient};

verus! {

/// How an integration ended. Whatever the status, the best estimate of the
/// integral and of its error is returned beside it.
#[derive(Clone, Copy, Debug, PartialEq, Eq, Structural)]
pub enum Value {
    /// The estimate meets the requested tolerance.
    Success,
    /// An argument was refused before the integrand was evaluated: the
    /// tolerances cannot be met by any estimate, or the limit on the number of
    /// intervals exceeds the workspace.
    BadArgument,
    /// The limit on the number of intervals was reached before the tolerance.
    IntervalLimitReached,
    /// Further bisection no longer reduces the error estimate.
    RoundoffLimited,
    /// The interval with the largest error is too small to be bisected.
    SingularBehavior,
    /// The integral is judged not to converge.
    Divergent,
    /// A table of an oscillatory weight holds too few levels.
    TableInsufficient,
    /// A workspace or table could not be built.
    AllocationFailure,
}

impl Value {
    /// The status that a numeric code stands for, in the convention of
    /// numerical C libraries where zero is success: 4 and 13 are an invalid
    /// argument and an unreachable tolerance, 8 is a failed allocation, 11 the
    /// limit on iterations, 18 round-off, 21 a singularity, 22 divergence and
    /// 26 an insufficient table. Other codes stand for no status of an
    /// integration.
    pub open spec fn of_code(code: i32) -> Option<Value> {
        if code == 0 {
            Some(Value::Success)
        } else if code == 4 || code == 13 {
            Some(Value::BadArgument)
        } else if code == 8 {
            Some(Value::AllocationFailure)
        } else if code == 11 {
            Some(Value::IntervalLimitReached)
        } else if code == 18 {
            Some(Value::RoundoffLimited)
        } else if code == 21 {
            Some(Value::SingularBehavior)
        } else if code == 22 {
            Some(Value::Divergent)
        } else if code == 26 {
            Some(Value::TableInsufficient)
        } else {
            None
        }
    }

    /// The numeric code of a status; an argument that is refused has the code
    /// of an invalid argument.
    pub open spec fn code_of(self) -> i32 {
        match self {
            Value::Success => 0,
            Value::BadArgument => 4,
            Value::AllocationFailure => 8,
            Value::IntervalLimitReached => 11,
            Value::RoundoffLimited => 18,
            Value::SingularBehavior => 21,
            Value::Divergent => 22,
            Value::TableInsufficient => 26,
        }
    }

    /// The status that a numeric code stands for.
    pub fn from_code(code: i32) -> (r: Option<Value>)
        ensures
            r == Value::of_code(code),
    {
        if code == 0 {
            Some(Value::Success)
        } else if code == 4 || code == 13 {
            Some(Value::BadArgument)
        } else if code == 8 {
            Some(Value::AllocationFailure)
        } else if code == 11 {
            Some(Value::IntervalLimitReached)
        } else if code == 18 {
            Some(Value::RoundoffLimited)
        } else if code == 21 {
            Some(Value::SingularBehavior)
        } else if code == 22 {
            Some(Value::Divergent)
        } else if code == 26 {
            Some(Value::TableInsufficient)
        } else {
            None
        }
    }

    /// The numeric code of a status.
    pub fn code(self) -> (r: i32)
        ensures
            r == self.code_of(),
            Value::of_code(r) == Some(self),
    {
        match self {
            Value::Success => 0,
            Value::BadArgument => 4,
            Value::AllocationFailure => 8,
            Value::IntervalLimitReached => 11,
            Value::RoundoffLimited => 18,
            Value::SingularBehavior => 21,
            Value::Divergent => 22,
            Value::TableInsufficient => 26,
        }
    }

    /// True for `Success`.
    pub fn is_success(self) -> (r: bool)
        ensures
            r == (self is Success),
    {
        match self {
            Value::Success => true,
            _ => false,
        }
    }
}

/// The least relative tolerance that can be asked for without an absolute one:
/// one quantum, the least that is above zero.
pub const EPSREL_FLOOR: i64 = 1;

/// The tolerances can be met by some estimate: the absolute one is positive, or
/// the relative one reaches the floor.
pub open spec fn tolerances_valid(epsabs: i64, epsrel: i64) -> bool {
    epsabs > 0 || epsrel >= EPSREL_FLOOR
}

/// The error that an estimate `result` may have: the larger of the absolute
/// tolerance and the relative tolerance times the magnitude of the estimate,
/// and never less than zero.
pub open spec fn tolerance_of(epsabs: i64, epsrel: i64, result: i64) -> int {
    let relative = truncated_quotient(epsrel * magnitude_of(result as int), ONE as int);
    let larger = if epsabs >= relative {
        epsabs as int
    } else {
        relative
    };
    if larger < 0 {
        0
    } else {
        larger
    }
}

/// True when the tolerances can be met by some estimate.
pub fn check_tolerances(epsabs: i64, epsrel: i64) -> (r: bool)
    ensures
        r == tolerances_valid(epsabs, epsrel),
{
    epsabs > 0 || epsrel >= EPSREL_FLOOR
}

/// The error that an estimate `result` may have under the given tolerances.
pub fn tolerance(epsabs: i64, epsrel: i64, result: i64) -> (r: u128)
    ensures
        r == tolerance_of(epsabs, epsrel, result),
{
    let m = magnitude(result);
    assert(-0x8000_0000_0000_0000 * 0x8000_0000_0000_0000 <= (epsrel as int) * (m as int)
        <= 0x8000_0000_0000_0000 * 0x8000_0000_0000_0000) by (nonlinear_arith)
        requires
            -0x8000_0000_0000_0000 <= epsrel <= 0x7fff_ffff_ffff_ffff,
            0 <= m <= 0x8000_0000_0000_0000,
    ;
    let relative: i128 = ((epsrel as i128) * (m as i128)) / 0x100_0000_0000;
    let larger: i128 = if (epsabs as i128) >= relative {
        epsabs as i128
    } else {
        relative
    };
    if larger < 0 {
        0
    } else {
        larger as u128
    }
}

} // verus!
