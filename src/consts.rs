use vstd::prelude::*;

verus! {

pub const MONTHS_PER_YEAR: u32 = 12;
pub const HOURS_PER_DAY: u32 = 24;
pub const MINUTES_PER_HOUR: u32 = 60;
pub const SECONDS_PER_MINUTE: u32 = 60;
pub const USECONDS_MAX: u32 = 999_999;

pub const USECONDS_PER_SECOND: i64 = 1_000_000;
pub const USECONDS_PER_MINUTE: i64 = 60_000_000;
pub const USECONDS_PER_HOUR: i64 = 3_600_000_000;
pub const USECONDS_PER_DAY: i64 = 86_400_000_000;

/// The largest number of years a year-month interval can span.
pub const INTERVAL_MAX_YEAR: u32 = 178_000_000;
/// The largest number of days a day-time interval can span.
pub const INTERVAL_MAX_DAY: u32 = 100_000_000;
/// `INTERVAL_MAX_YEAR` years, in months.
pub const INTERVAL_MAX_MONTH: i32 = 2_136_000_000;
/// `INTERVAL_MAX_DAY` days, in microseconds.
pub const INTERVAL_MAX_USECONDS: i64 = 8_640_000_000_000_000_000;

/// The sign of an interval; zero counts as positive.
#[derive(Debug, PartialEq, Eq, Copy, Clone, Structural)]
pub enum Sign {
    Positive,
    Negative,
}

/// The sign of an integer: negative only when strictly below zero.
pub open spec fn sign_of(v: int) -> Sign {
    if v < 0 {
        Sign::Negative
    } else {
        Sign::Positive
    }
}

/// The outcome of scaling an interval's integer count by a real factor,
/// computed outside the verified code.
#[derive(Debug, PartialEq, Eq, Copy, Clone, Structural)]
pub enum ScaledValue {
    /// The divisor was exactly zero; no division took place.
    DivisorZero,
    /// The product or quotient is infinite.
    Infinite,
    /// The product or quotient is not a number.
    NotANumber,
    /// The finite product or quotient, truncated toward zero and saturated at
    /// the bounds of `i64`.
    Truncated(i64),
}

/// Division of integers that rounds toward zero, as Rust's `/` does.
pub open spec fn trunc_div(a: int, b: int) -> int {
    if a >= 0 {
        a / b
    } else {
        -((-a) / b)
    }
}

/// The remainder that goes with `trunc_div`; it has the sign of `a`.
pub open spec fn trunc_rem(a: int, b: int) -> int {
    a - b * trunc_div(a, b)
}

/// The absolute value of an integer.
pub open spec fn abs(v: int) -> int {
    if v < 0 {
        -v
    } else {
        v
    }
}

} // verus!
