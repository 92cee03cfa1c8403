use vstd::prelude::*;

use crate::consts::{
    HOURS_PER_DAY, MINUTES_PER_HOUR, SECONDS_PER_MINUTE, USECONDS_MAX, USECONDS_PER_DAY,
};
use crate::error::{Error, Result};

verus! {

/// A time of day, held as microseconds since midnight.
#[derive(Copy, Clone, Debug, PartialEq, Eq, Hash, PartialOrd, Ord, Structural)]
pub struct Time(i64);

/// Microseconds since midnight of the given clock fields.
pub open spec fn hms_usecs(hour: int, minute: int, sec: int, usec: int) -> int {
    hour * 3_600_000_000 + minute * 60_000_000 + sec * 1_000_000 + usec
}

impl View for Time {
    type V = int;

    /// Microseconds since midnight.
    closed spec fn view(&self) -> int {
        self.0 as int
    }
}

impl Time {
    #[verifier::type_invariant]
    spec fn inv(self) -> bool {
        0 <= self.0 < USECONDS_PER_DAY
    }

    /// Creates a time of day from its clock fields.
    pub fn try_from_hms(hour: u32, minute: u32, sec: u32, usec: u32) -> (r: Result<Time>)
        ensures
            hour >= HOURS_PER_DAY ==> r matches Err(Error::TimeOutOfRange),
            hour < HOURS_PER_DAY && minute >= MINUTES_PER_HOUR ==> r matches Err(
                Error::InvalidMinute,
            ),
            hour < HOURS_PER_DAY && minute < MINUTES_PER_HOUR && sec >= SECONDS_PER_MINUTE
                ==> r matches Err(Error::InvalidSecond),
            hour < HOURS_PER_DAY && minute < MINUTES_PER_HOUR && sec < SECONDS_PER_MINUTE && usec
                > USECONDS_MAX ==> r matches Err(Error::InvalidFraction),
            hour < HOURS_PER_DAY && minute < MINUTES_PER_HOUR && sec < SECONDS_PER_MINUTE && usec
                <= USECONDS_MAX ==> (r matches Ok(t) && t@ == hms_usecs(
                hour as int,
                minute as int,
                sec as int,
                usec as int,
            )),
    {
        if hour >= HOURS_PER_DAY {
            return Err(Error::TimeOutOfRange);
        }
        if minute >= MINUTES_PER_HOUR {
            return Err(Error::InvalidMinute);
        }
        if sec >= SECONDS_PER_MINUTE {
            return Err(Error::InvalidSecond);
        }
        if usec > USECONDS_MAX {
            return Err(Error::InvalidFraction);
        }
        let us = hour as i64 * 3_600_000_000 + minute as i64 * 60_000_000 + sec as i64 * 1_000_000
            + usec as i64;
        Ok(Time(us))
    }

    /// Microseconds since midnight.
    pub fn usecs(self) -> (r: i64)
        ensures
            r == self@,
            0 <= r < USECONDS_PER_DAY,
    {
        proof {
            use_type_invariant(self);
        }
        self.0
    }
}

} // verus!
