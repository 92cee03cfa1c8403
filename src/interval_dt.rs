use vstd::prelude::*;

use crate::consts::{
    abs, sign_of, trunc_div, trunc_rem, ScaledValue, Sign, HOURS_PER_DAY, INTERVAL_MAX_DAY,
    INTERVAL_MAX_USECONDS, MINUTES_PER_HOUR, SECONDS_PER_MINUTE, USECONDS_MAX,
    USECONDS_PER_DAY, USECONDS_PER_HOUR, USECONDS_PER_MINUTE, USECONDS_PER_SECOND,
};
use crate::error::{Error, Result};
use crate::pattern::{
    compile, format_record, parse_record, uses_year_month, zero_record, Formatter, NaiveDateTime,
};
use crate::time::Time;

verus! {

/// A span of microseconds, at most `INTERVAL_MAX_DAY` days either way.
#[derive(Copy, Clone, Debug, PartialEq, Eq, Hash, PartialOrd, Ord, Structural)]
pub struct IntervalDT(i64);

/// A microsecond count that a day-time interval can hold.
pub open spec fn valid_usecs(u: int) -> bool {
    -INTERVAL_MAX_USECONDS <= u <= INTERVAL_MAX_USECONDS
}

/// The day field alone is too large: beyond the bound, or at it with a time part.
pub open spec fn dt_out_of_range(day: int, hour: int, minute: int, sec: int, usec: int) -> bool {
    day >= INTERVAL_MAX_DAY && (day != INTERVAL_MAX_DAY || hour != 0 || minute != 0 || sec != 0
        || usec != 0)
}

/// Fields that make a day-time interval.
pub open spec fn valid_dhms(day: int, hour: int, minute: int, sec: int, usec: int) -> bool {
    &&& !dt_out_of_range(day, hour, minute, sec, usec)
    &&& hour < HOURS_PER_DAY
    &&& minute < MINUTES_PER_HOUR
    &&& sec < SECONDS_PER_MINUTE
    &&& usec <= USECONDS_MAX
}

/// The microsecond count of the given fields.
pub open spec fn dhms_usecs(day: int, hour: int, minute: int, sec: int, usec: int) -> int {
    day * (USECONDS_PER_DAY as int) + hour * (USECONDS_PER_HOUR as int) + minute * (USECONDS_PER_MINUTE as int) + sec
        * (USECONDS_PER_SECOND as int) + usec
}

/// The record of a microsecond count: the sign once, the magnitude split by
/// successive division into days, hours, minutes, seconds and microseconds.
pub open spec fn dt_record(u: int) -> NaiveDateTime {
    let a = abs(u);
    let t = a % (USECONDS_PER_DAY as int);
    NaiveDateTime {
        day: (a / (USECONDS_PER_DAY as int)) as u32,
        hour: (t / (USECONDS_PER_HOUR as int)) as u32,
        minute: (t % (USECONDS_PER_HOUR as int) / (USECONDS_PER_MINUTE as int)) as u32,
        sec: (t % (USECONDS_PER_HOUR as int) % (USECONDS_PER_MINUTE as int) / (
        USECONDS_PER_SECOND as int)) as u32,
        usec: (t % (USECONDS_PER_HOUR as int) % (USECONDS_PER_MINUTE as int) % (
        USECONDS_PER_SECOND as int)) as u32,
        ..zero_record(u < 0)
    }
}

/// The signed microsecond count that a record's day and time fields and sign
/// describe.
pub open spec fn dt_of_record(dt: NaiveDateTime) -> int {
    let m = dhms_usecs(
        dt.day as int,
        dt.hour as int,
        dt.minute as int,
        dt.sec as int,
        dt.usec as int,
    );
    if dt.negative {
        -m
    } else {
        m
    }
}

/// What converting a record to a day-time interval gives: the checks of
/// `try_from_dhms` on its fields, then its sign.
pub open spec fn dt_conversion(dt: NaiveDateTime, r: Result<IntervalDT>) -> bool {
    let (d, h, m, s, u) = (
        dt.day as int,
        dt.hour as int,
        dt.minute as int,
        dt.sec as int,
        dt.usec as int,
    );
    &&& (dt_out_of_range(d, h, m, s, u) ==> (r matches Err(Error::IntervalOutOfRange)))
    &&& (!dt_out_of_range(d, h, m, s, u) && h >= HOURS_PER_DAY ==> (r matches Err(
        Error::TimeOutOfRange,
    )))
    &&& (!dt_out_of_range(d, h, m, s, u) && h < HOURS_PER_DAY && m >= MINUTES_PER_HOUR ==> (r matches Err(
        Error::InvalidMinute,
    )))
    &&& (!dt_out_of_range(d, h, m, s, u) && h < HOURS_PER_DAY && m < MINUTES_PER_HOUR && s
        >= SECONDS_PER_MINUTE ==> (r matches Err(Error::InvalidSecond)))
    &&& (!dt_out_of_range(d, h, m, s, u) && h < HOURS_PER_DAY && m < MINUTES_PER_HOUR && s
        < SECONDS_PER_MINUTE && u > USECONDS_MAX ==> (r matches Err(Error::InvalidFraction)))
    &&& (valid_dhms(d, h, m, s, u) ==> (r matches Ok(v) && v@ == dt_of_record(dt)))
}

impl View for IntervalDT {
    type V = int;

    /// The signed number of microseconds.
    closed spec fn view(&self) -> int {
        self.0 as int
    }
}

impl IntervalDT {
    /// The zero interval.
    pub fn zero() -> (r: IntervalDT)
        ensures
            r@ == 0,
    {
        IntervalDT(0)
    }

    /// The largest interval.
    pub fn max_value() -> (r: IntervalDT)
        ensures
            r@ == 8_640_000_000_000_000_000,
    {
        IntervalDT(8_640_000_000_000_000_000)
    }

    /// The smallest interval, the negation of the largest.
    pub fn min_value() -> (r: IntervalDT)
        ensures
            r@ == -8_640_000_000_000_000_000,
    {
        IntervalDT(-8_640_000_000_000_000_000)
    }

    #[verifier::type_invariant]
    spec fn inv(self) -> bool {
        valid_usecs(self.0 as int)
    }

    /// Two intervals with the same microsecond count are the same interval.
    pub proof fn lemma_view_eq(a: Self, b: Self)
        requires
            a@ == b@,
        ensures
            a == b,
    {
    }

    /// Creates an interval from day, hour, minute, second and microsecond fields.
    pub fn try_from_dhms(day: u32, hour: u32, minute: u32, sec: u32, usec: u32) -> (r: Result<Self>)
        ensures
            dt_out_of_range(day as int, hour as int, minute as int, sec as int, usec as int)
                ==> r matches Err(Error::IntervalOutOfRange),
            !dt_out_of_range(day as int, hour as int, minute as int, sec as int, usec as int)
                && hour >= HOURS_PER_DAY ==> r matches Err(Error::TimeOutOfRange),
            !dt_out_of_range(day as int, hour as int, minute as int, sec as int, usec as int)
                && hour < HOURS_PER_DAY && minute >= MINUTES_PER_HOUR ==> r matches Err(
                Error::InvalidMinute,
            ),
            !dt_out_of_range(day as int, hour as int, minute as int, sec as int, usec as int)
                && hour < HOURS_PER_DAY && minute < MINUTES_PER_HOUR && sec >= SECONDS_PER_MINUTE
                ==> r matches Err(Error::InvalidSecond),
            !dt_out_of_range(day as int, hour as int, minute as int, sec as int, usec as int)
                && hour < HOURS_PER_DAY && minute < MINUTES_PER_HOUR && sec < SECONDS_PER_MINUTE
                && usec > USECONDS_MAX ==> r matches Err(Error::InvalidFraction),
            valid_dhms(day as int, hour as int, minute as int, sec as int, usec as int) ==> (r matches Ok(
                v,
            ) && v@ == dhms_usecs(day as int, hour as int, minute as int, sec as int, usec as int)),
    {
        if day >= INTERVAL_MAX_DAY && (day != INTERVAL_MAX_DAY || hour != 0 || minute != 0 || sec
            != 0 || usec != 0) {
            return Err(Error::IntervalOutOfRange);
        }
        if hour >= HOURS_PER_DAY {
            return Err(Error::TimeOutOfRange);
        }
        if minute >= MINUTES_PER_HOUR {
            return Err(Error::InvalidMinute);
        }
        if sec >= SECONDS_PER_MINUTE {
            return Err(Error::InvalidSecond);
        }
        if usec > USECONDS_MAX {
            return Err(Error::InvalidFraction);
        }
        let time = hour as i64 * USECONDS_PER_HOUR + minute as i64 * USECONDS_PER_MINUTE + sec as i64
            * USECONDS_PER_SECOND + usec as i64;
        let us = day as i64 * USECONDS_PER_DAY + time;
        Ok(IntervalDT(us))
    }

    /// Creates an interval from a signed microsecond count.
    pub fn try_from_usecs(usecs: i64) -> (r: Result<Self>)
        ensures
            valid_usecs(usecs as int) ==> (r matches Ok(v) && v@ == usecs),
            !valid_usecs(usecs as int) ==> r matches Err(Error::IntervalOutOfRange),
    {
        if IntervalDT::is_valid_usecs(usecs) {
            Ok(IntervalDT(usecs))
        } else {
            Err(Error::IntervalOutOfRange)
        }
    }

    /// Tells whether the given fields make an interval.
    pub fn is_valid(day: u32, hour: u32, minute: u32, sec: u32, usec: u32) -> (r: bool)
        ensures
            r == valid_dhms(day as int, hour as int, minute as int, sec as int, usec as int),
    {
        if day >= INTERVAL_MAX_DAY && (day != INTERVAL_MAX_DAY || hour != 0 || minute != 0 || sec
            != 0 || usec != 0) {
            return false;
        }
        if hour >= HOURS_PER_DAY {
            return false;
        }
        if minute >= MINUTES_PER_HOUR {
            return false;
        }
        if sec >= SECONDS_PER_MINUTE {
            return false;
        }
        if usec > USECONDS_MAX {
            return false;
        }
        true
    }

    /// Tells whether a signed microsecond count is within the bounds.
    pub fn is_valid_usecs(usecs: i64) -> (r: bool)
        ensures
            r == valid_usecs(usecs as int),
    {
        usecs <= INTERVAL_MAX_USECONDS && usecs >= -INTERVAL_MAX_USECONDS
    }

    /// The signed number of microseconds.
    pub fn usecs(self) -> (r: i64)
        ensures
            r == self@,
            valid_usecs(r as int),
    {
        proof {
            use_type_invariant(self);
        }
        self.0
    }

    /// The sign, then the days, hours, minutes, seconds and microseconds of the
    /// magnitude, by successive division.
    pub fn extract(self) -> (r: (Sign, u32, u32, u32, u32, u32))
        ensures
            r.0 == sign_of(self@),
            r.1 == abs(self@) / (USECONDS_PER_DAY as int),
            r.2 == abs(self@) % (USECONDS_PER_DAY as int) / (USECONDS_PER_HOUR as int),
            r.3 == abs(self@) % (USECONDS_PER_DAY as int) % (USECONDS_PER_HOUR as int) / (USECONDS_PER_MINUTE as int),
            r.4 == abs(self@) % (USECONDS_PER_DAY as int) % (USECONDS_PER_HOUR as int) % (USECONDS_PER_MINUTE as int)
                / (USECONDS_PER_SECOND as int),
            r.5 == abs(self@) % (USECONDS_PER_DAY as int) % (USECONDS_PER_HOUR as int) % (USECONDS_PER_MINUTE as int)
                % (USECONDS_PER_SECOND as int),
    {
        proof {
            use_type_invariant(self);
        }
        let (sign, a) = if self.0 < 0 {
            (Sign::Negative, -self.0)
        } else {
            (Sign::Positive, self.0)
        };
        let day = a / USECONDS_PER_DAY;
        let mut time = a % USECONDS_PER_DAY;
        let hour = time / USECONDS_PER_HOUR;
        time = time % USECONDS_PER_HOUR;
        let minute = time / USECONDS_PER_MINUTE;
        time = time % USECONDS_PER_MINUTE;
        let sec = time / USECONDS_PER_SECOND;
        let usec = time % USECONDS_PER_SECOND;
        (sign, day as u32, hour as u32, minute as u32, sec as u32, usec as u32)
    }

    /// The record of the interval, as `extract` splits it.
    pub fn to_naive(self) -> (r: NaiveDateTime)
        ensures
            r == dt_record(self@),
    {
        let (sign, day, hour, minute, sec, usec) = self.extract();
        NaiveDateTime {
            year: 0,
            month: 0,
            day,
            hour,
            minute,
            sec,
            usec,
            negative: sign == Sign::Negative,
        }
    }

    /// The interval that a record's day and time fields and sign describe.
    pub fn try_from_naive(dt: NaiveDateTime) -> (r: Result<IntervalDT>)
        ensures
            dt_conversion(dt, r),
    {
        let r = IntervalDT::try_from_dhms(dt.day, dt.hour, dt.minute, dt.sec, dt.usec);
        if dt.negative {
            match r {
                Ok(v) => Ok(v.negate()),
                Err(e) => Err(e),
            }
        } else {
            r
        }
    }

    /// Formats the interval by a pattern of day and time fields.
    pub fn format(self, fmt: &str) -> (r: Result<String>)
        ensures
            compile(fmt@) is None ==> r matches Err(Error::InvalidFormat(_)),
            compile(fmt@) matches Some(ts) ==> (uses_year_month(ts) ==> r matches Err(
                Error::InvalidFormat(_),
            )),
            compile(fmt@) matches Some(ts) ==> (!uses_year_month(ts) ==> (r matches Ok(s) && s@
                == format_record(fmt@, ts, dt_record(self@)))),
    {
        let f = Formatter::try_new(fmt)?;
        if f.uses_year_month() {
            return Err(Error::InvalidFormat("the format has fields of a year-month interval".to_string()));
        }
        Ok(f.format(self.to_naive()))
    }

    /// Parses an interval from text by a pattern of day and time fields;
    /// fields that the pattern leaves out are zero.
    pub fn parse(input: &str, fmt: &str) -> (r: Result<IntervalDT>)
        ensures
            compile(fmt@) is None ==> r matches Err(Error::InvalidFormat(_)),
            compile(fmt@) matches Some(ts) ==> (uses_year_month(ts) ==> r matches Err(
                Error::ParseError(_),
            )),
            compile(fmt@) matches Some(ts) ==> (!uses_year_month(ts) ==> (parse_record(
                fmt@,
                ts,
                input@,
            ) is None ==> r matches Err(Error::ParseError(_)))),
            compile(fmt@) matches Some(ts) ==> (!uses_year_month(ts) ==> (parse_record(
                fmt@,
                ts,
                input@,
            ) matches Some(dt) ==> dt_conversion(dt, r))),
    {
        let f = Formatter::try_new(fmt)?;
        if f.uses_year_month() {
            return Err(Error::ParseError("the format has fields of a year-month interval".to_string()));
        }
        let dt = f.parse(input)?;
        IntervalDT::try_from_naive(dt)
    }

    /// The interval of the opposite sign.
    pub closed spec fn negated(self) -> IntervalDT {
        IntervalDT((-self.0) as i64)
    }

    /// Negating twice gives back the same interval, for every interval,
    /// the largest and the smallest among them.
    pub proof fn lemma_negate_negate(x: IntervalDT)
        requires
            valid_usecs(x@),
        ensures
            x.negated().negated() == x,
            x.negated()@ == -x@,
    {
    }

    /// The interval of the opposite sign; never out of range.
    pub fn negate(self) -> (r: Self)
        ensures
            r@ == -self@,
            r == self.negated(),
    {
        proof {
            use_type_invariant(self);
        }
        IntervalDT(-self.0)
    }

    /// The sum of two intervals.
    pub fn add_interval_dt(self, interval: IntervalDT) -> (r: Result<IntervalDT>)
        ensures
            valid_usecs(self@ + interval@) ==> (r matches Ok(v) && v@ == self@ + interval@),
            !valid_usecs(self@ + interval@) ==> r matches Err(Error::IntervalOutOfRange),
    {
        match self.0.checked_add(interval.0) {
            Some(i) => IntervalDT::try_from_usecs(i),
            None => Err(Error::IntervalOutOfRange),
        }
    }

    /// The difference of two intervals.
    pub fn sub_interval_dt(self, interval: IntervalDT) -> (r: Result<IntervalDT>)
        ensures
            valid_usecs(self@ - interval@) ==> (r matches Ok(v) && v@ == self@ - interval@),
            !valid_usecs(self@ - interval@) ==> r matches Err(Error::IntervalOutOfRange),
    {
        self.add_interval_dt(interval.negate())
    }

    /// The interval for the outcome of scaling its microsecond count by a real factor.
    pub fn from_scaled(value: ScaledValue) -> (r: Result<IntervalDT>)
        ensures
            value is DivisorZero ==> r matches Err(Error::DivideByZero),
            value is Infinite ==> r matches Err(Error::NumericOverflow),
            value is NotANumber ==> r matches Err(Error::InvalidNumber),
            value matches ScaledValue::Truncated(t) ==> (valid_usecs(t as int) ==> (r matches Ok(
                v,
            ) && v@ == t)),
            value matches ScaledValue::Truncated(t) ==> (!valid_usecs(t as int) ==> r matches Err(
                Error::IntervalOutOfRange,
            )),
    {
        match value {
            ScaledValue::DivisorZero => Err(Error::DivideByZero),
            ScaledValue::Infinite => Err(Error::NumericOverflow),
            ScaledValue::NotANumber => Err(Error::InvalidNumber),
            ScaledValue::Truncated(t) => IntervalDT::try_from_usecs(t),
        }
    }

    /// This interval less a time of day, both as microsecond counts.
    pub fn sub_time(self, time: Time) -> (r: Result<IntervalDT>)
        ensures
            valid_usecs(self@ - time@) ==> (r matches Ok(v) && v@ == self@ - time@),
            !valid_usecs(self@ - time@) ==> r matches Err(Error::IntervalOutOfRange),
    {
        let t = time.usecs();
        let u = self.usecs();
        IntervalDT::try_from_usecs(u - t)
    }

    /// The interval as long as the time of day is since midnight.
    pub fn from_time(time: Time) -> (r: IntervalDT)
        ensures
            r@ == time@,
    {
        IntervalDT(time.usecs())
    }

    /// Whether the interval's microsecond count equals the time of day's.
    pub fn eq_time(&self, time: &Time) -> (r: bool)
        ensures
            r == (self@ == time@),
    {
        self.0 == time.usecs()
    }

    /// Orders the interval's microsecond count against the time of day's.
    pub fn cmp_time(&self, time: &Time) -> (r: core::cmp::Ordering)
        ensures
            self@ < time@ ==> r is Less,
            self@ == time@ ==> r is Equal,
            self@ > time@ ==> r is Greater,
    {
        let t = time.usecs();
        if self.0 < t {
            core::cmp::Ordering::Less
        } else if self.0 == t {
            core::cmp::Ordering::Equal
        } else {
            core::cmp::Ordering::Greater
        }
    }

    /// A day-time interval has no year field.
    pub fn year(&self) -> (r: Option<i32>)
        ensures
            r is None,
    {
        None
    }

    /// A day-time interval has no month field.
    pub fn month(&self) -> (r: Option<i32>)
        ensures
            r is None,
    {
        None
    }

    /// The signed whole days, rounded toward zero.
    pub fn day(&self) -> (r: Option<i32>)
        ensures
            r == Some(trunc_div(self@, USECONDS_PER_DAY as int) as i32),
    {
        proof {
            use_type_invariant(self);
        }
        Some((self.0 / USECONDS_PER_DAY) as i32)
    }

    /// The signed whole hours beyond the whole days.
    pub fn hour(&self) -> (r: Option<i32>)
        ensures
            r == Some(
                trunc_div(trunc_rem(self@, USECONDS_PER_DAY as int), USECONDS_PER_HOUR as int) as i32,
            ),
    {
        let remain_time = self.0 % USECONDS_PER_DAY;
        Some((remain_time / USECONDS_PER_HOUR) as i32)
    }

    /// The signed whole minutes beyond the whole hours.
    pub fn minute(&self) -> (r: Option<i32>)
        ensures
            r == Some(
                trunc_div(trunc_rem(self@, USECONDS_PER_HOUR as int), USECONDS_PER_MINUTE as int)
                    as i32,
            ),
    {
        let remain_time = self.0 % USECONDS_PER_HOUR;
        Some((remain_time / USECONDS_PER_MINUTE) as i32)
    }

    /// The signed seconds beyond the whole minutes, with their fraction, in
    /// microseconds.
    pub fn second_usecs(&self) -> (r: Option<i64>)
        ensures
            r == Some(trunc_rem(self@, USECONDS_PER_MINUTE as int) as i64),
    {
        Some(self.0 % USECONDS_PER_MINUTE)
    }
}

impl From<Time> for IntervalDT {
    fn from(time: Time) -> (r: IntervalDT)
        ensures
            r@ == time@,
    {
        IntervalDT::from_time(time)
    }
}

impl vstd::std_specs::convert::FromSpecImpl<Time> for IntervalDT {
    open spec fn obeys_from_spec() -> bool {
        true
    }

    closed spec fn from_spec(time: Time) -> IntervalDT {
        IntervalDT(time@ as i64)
    }
}

impl core::ops::Neg for IntervalDT {
    type Output = IntervalDT;

    fn neg(self) -> (r: IntervalDT)
        ensures
            r@ == -self@,
    {
        self.negate()
    }
}

impl vstd::std_specs::ops::NegSpecImpl for IntervalDT {
    open spec fn obeys_neg_spec() -> bool {
        true
    }

    open spec fn neg_req(self) -> bool {
        true
    }

    open spec fn neg_spec(self) -> IntervalDT {
        self.negated()
    }
}

} // verus!
