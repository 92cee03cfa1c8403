use vstd::prelude::*;

use crate::consts::{
    abs, sign_of, trunc_div, trunc_rem, ScaledValue, Sign, INTERVAL_MAX_MONTH, INTERVAL_MAX_YEAR,
    MONTHS_PER_YEAR,
};
use crate::error::{Error, Result};
use crate::pattern::{
    compile, format_record, parse_record, uses_day_time, zero_record, Formatter, NaiveDateTime,
};

verus! {

/// A span of whole months, at most `INTERVAL_MAX_YEAR` years either way.
#[derive(Copy, Clone, Debug, PartialEq, Eq, Hash, PartialOrd, Ord, Structural)]
pub struct IntervalYM(i32);

/// A month count that a year-month interval can hold.
pub open spec fn valid_months(m: int) -> bool {
    -INTERVAL_MAX_MONTH <= m <= INTERVAL_MAX_MONTH
}

/// The year field alone is too large: beyond the bound, or at it with months.
pub open spec fn ym_out_of_range(year: int, month: int) -> bool {
    year >= INTERVAL_MAX_YEAR && (year != INTERVAL_MAX_YEAR || month != 0)
}

/// Fields that make a year-month interval.
pub open spec fn valid_ym(year: int, month: int) -> bool {
    !ym_out_of_range(year, month) && month < MONTHS_PER_YEAR
}

/// The record of a month count: the sign once, the magnitude as years and months.
pub open spec fn ym_record(m: int) -> NaiveDateTime {
    NaiveDateTime { year: (abs(m) / 12) as u32, month: (abs(m) % 12) as u32, ..zero_record(m < 0) }
}

/// The signed month count that a record's year, month and sign describe.
pub open spec fn ym_of_record(dt: NaiveDateTime) -> int {
    if dt.negative {
        -(dt.year * 12 + dt.month)
    } else {
        dt.year * 12 + dt.month
    }
}

/// What converting a record to a year-month interval gives: the checks of
/// `try_from_ym` on its year and month, then its sign.
pub open spec fn ym_conversion(dt: NaiveDateTime, r: Result<IntervalYM>) -> bool {
    &&& (ym_out_of_range(dt.year as int, dt.month as int) ==> (r matches Err(
        Error::IntervalOutOfRange,
    )))
    &&& (!ym_out_of_range(dt.year as int, dt.month as int) && dt.month >= MONTHS_PER_YEAR
        ==> (r matches Err(Error::InvalidMonth)))
    &&& (valid_ym(dt.year as int, dt.month as int) ==> (r matches Ok(v) && v@ == ym_of_record(
        dt,
    )))
}

/// Splitting the month count of fields that make an interval gives the
/// fields back, with a positive sign.
pub proof fn lemma_extract_from_ym(year: u32, month: u32)
    requires
        valid_ym(year as int, month as int),
    ensures
        sign_of(year * 12 + month) == Sign::Positive,
        abs(year * 12 + month) / 12 == year,
        abs(year * 12 + month) % 12 == month,
{
}

impl View for IntervalYM {
    type V = int;

    /// The signed number of months.
    closed spec fn view(&self) -> int {
        self.0 as int
    }
}

impl IntervalYM {
    /// The zero interval.
    pub fn zero() -> (r: IntervalYM)
        ensures
            r@ == 0,
    {
        IntervalYM(0)
    }

    /// The largest interval.
    pub fn max_value() -> (r: IntervalYM)
        ensures
            r@ == 2_136_000_000,
    {
        IntervalYM(2_136_000_000)
    }

    /// The smallest interval, the negation of the largest.
    pub fn min_value() -> (r: IntervalYM)
        ensures
            r@ == -2_136_000_000,
    {
        IntervalYM(-2_136_000_000)
    }

    #[verifier::type_invariant]
    spec fn inv(self) -> bool {
        valid_months(self.0 as int)
    }

    /// Two intervals with the same month count are the same interval.
    pub proof fn lemma_view_eq(a: Self, b: Self)
        requires
            a@ == b@,
        ensures
            a == b,
    {
    }

    /// Creates an interval from a year and a month field.
    pub fn try_from_ym(year: u32, month: u32) -> (r: Result<Self>)
        ensures
            ym_out_of_range(year as int, month as int) ==> r matches Err(Error::IntervalOutOfRange),
            !ym_out_of_range(year as int, month as int) && month >= MONTHS_PER_YEAR ==> r matches Err(
                Error::InvalidMonth,
            ),
            valid_ym(year as int, month as int) ==> (r matches Ok(v) && v@ == year * 12 + month),
    {
        if year >= INTERVAL_MAX_YEAR && (year != INTERVAL_MAX_YEAR || month != 0) {
            return Err(Error::IntervalOutOfRange);
        }
        if month >= MONTHS_PER_YEAR {
            return Err(Error::InvalidMonth);
        }
        Ok(IntervalYM((year * MONTHS_PER_YEAR + month) as i32))
    }

    /// Creates an interval from a signed month count.
    pub fn try_from_months(months: i32) -> (r: Result<Self>)
        ensures
            valid_months(months as int) ==> (r matches Ok(v) && v@ == months),
            !valid_months(months as int) ==> r matches Err(Error::IntervalOutOfRange),
    {
        if IntervalYM::is_valid_months(months) {
            Ok(IntervalYM(months))
        } else {
            Err(Error::IntervalOutOfRange)
        }
    }

    /// Tells whether a year and a month field make an interval.
    pub fn is_valid_ym(year: u32, month: u32) -> (r: bool)
        ensures
            r == valid_ym(year as int, month as int),
    {
        if year >= INTERVAL_MAX_YEAR && (year != INTERVAL_MAX_YEAR || month != 0) {
            return false;
        }
        if month >= MONTHS_PER_YEAR {
            return false;
        }
        true
    }

    /// Tells whether a signed month count is within the bounds.
    pub fn is_valid_months(months: i32) -> (r: bool)
        ensures
            r == valid_months(months as int),
    {
        months <= INTERVAL_MAX_MONTH && months >= -INTERVAL_MAX_MONTH
    }

    /// The signed number of months.
    pub fn months(self) -> (r: i32)
        ensures
            r == self@,
            valid_months(r as int),
    {
        proof {
            use_type_invariant(self);
        }
        self.0
    }

    /// The sign, then the whole years and the remaining months of the magnitude.
    pub fn extract(self) -> (r: (Sign, u32, u32))
        ensures
            r.0 == sign_of(self@),
            r.1 == abs(self@) / 12,
            r.2 == abs(self@) % 12,
    {
        proof {
            use_type_invariant(self);
        }
        if self.0 < 0 {
            let m = (-self.0) as u32;
            let year = m / MONTHS_PER_YEAR;
            (Sign::Negative, year, m - year * MONTHS_PER_YEAR)
        } else {
            let m = self.0 as u32;
            let year = m / MONTHS_PER_YEAR;
            (Sign::Positive, year, m - year * MONTHS_PER_YEAR)
        }
    }

    /// The record of the interval, as `extract` splits it.
    pub fn to_naive(self) -> (r: NaiveDateTime)
        ensures
            r == ym_record(self@),
    {
        let (sign, year, month) = self.extract();
        NaiveDateTime {
            year,
            month,
            day: 0,
            hour: 0,
            minute: 0,
            sec: 0,
            usec: 0,
            negative: sign == Sign::Negative,
        }
    }

    /// The interval that a record's year, month and sign describe.
    pub fn try_from_naive(dt: NaiveDateTime) -> (r: Result<IntervalYM>)
        ensures
            ym_conversion(dt, r),
    {
        let r = IntervalYM::try_from_ym(dt.year, dt.month);
        if dt.negative {
            match r {
                Ok(v) => Ok(v.negate()),
                Err(e) => Err(e),
            }
        } else {
            r
        }
    }

    /// Formats the interval by a pattern of year and month fields.
    pub fn format(self, fmt: &str) -> (r: Result<String>)
        ensures
            compile(fmt@) is None ==> r matches Err(Error::InvalidFormat(_)),
            compile(fmt@) matches Some(ts) ==> (uses_day_time(ts) ==> r matches Err(
                Error::InvalidFormat(_),
            )),
            compile(fmt@) matches Some(ts) ==> (!uses_day_time(ts) ==> (r matches Ok(s) && s@
                == format_record(fmt@, ts, ym_record(self@)))),
    {
        let f = Formatter::try_new(fmt)?;
        if f.uses_day_time() {
            return Err(Error::InvalidFormat("the format has fields of a day-time interval".to_string()));
        }
        Ok(f.format(self.to_naive()))
    }

    /// Parses an interval from text by a pattern of year and month fields;
    /// fields that the pattern leaves out are zero.
    pub fn parse(input: &str, fmt: &str) -> (r: Result<IntervalYM>)
        ensures
            compile(fmt@) is None ==> r matches Err(Error::InvalidFormat(_)),
            compile(fmt@) matches Some(ts) ==> (uses_day_time(ts) ==> r matches Err(
                Error::ParseError(_),
            )),
            compile(fmt@) matches Some(ts) ==> (!uses_day_time(ts) ==> (parse_record(
                fmt@,
                ts,
                input@,
            ) is None ==> r matches Err(Error::ParseError(_)))),
            compile(fmt@) matches Some(ts) ==> (!uses_day_time(ts) ==> (parse_record(
                fmt@,
                ts,
                input@,
            ) matches Some(dt) ==> ym_conversion(dt, r))),
    {
        let f = Formatter::try_new(fmt)?;
        if f.uses_day_time() {
            return Err(Error::ParseError("the format has fields of a day-time interval".to_string()));
        }
        let dt = f.parse(input)?;
        IntervalYM::try_from_naive(dt)
    }

    /// The interval of the opposite sign.
    pub closed spec fn negated(self) -> IntervalYM {
        IntervalYM((-self.0) as i32)
    }

    /// Negating twice gives back the same interval, for every interval,
    /// the largest and the smallest among them.
    pub proof fn lemma_negate_negate(x: IntervalYM)
        requires
            valid_months(x@),
        ensures
            x.negated().negated() == x,
            x.negated()@ == -x@,
    {
    }

    /// The interval of the opposite sign; never out of range.
    pub fn negate(self) -> (r: Self)
        ensures
            r@ == -self@,
            r == self.negated(),
    {
        proof {
            use_type_invariant(self);
        }
        IntervalYM(-self.0)
    }

    /// The sum of two intervals.
    pub fn add_interval_ym(self, interval: IntervalYM) -> (r: Result<IntervalYM>)
        ensures
            valid_months(self@ + interval@) ==> (r matches Ok(v) && v@ == self@ + interval@),
            !valid_months(self@ + interval@) ==> r matches Err(Error::IntervalOutOfRange),
    {
        match self.0.checked_add(interval.0) {
            Some(i) => IntervalYM::try_from_months(i),
            None => Err(Error::IntervalOutOfRange),
        }
    }

    /// The difference of two intervals.
    pub fn sub_interval_ym(self, interval: IntervalYM) -> (r: Result<IntervalYM>)
        ensures
            valid_months(self@ - interval@) ==> (r matches Ok(v) && v@ == self@ - interval@),
            !valid_months(self@ - interval@) ==> r matches Err(Error::IntervalOutOfRange),
    {
        self.add_interval_ym(interval.negate())
    }

    /// The interval for the outcome of scaling its month count by a real factor.
    pub fn from_scaled(value: ScaledValue) -> (r: Result<IntervalYM>)
        ensures
            value is DivisorZero ==> r matches Err(Error::DivideByZero),
            value is Infinite ==> r matches Err(Error::NumericOverflow),
            value is NotANumber ==> r matches Err(Error::InvalidNumber),
            value matches ScaledValue::Truncated(t) ==> (valid_months(t as int) ==> (r matches Ok(
                v,
            ) && v@ == t)),
            value matches ScaledValue::Truncated(t) ==> (!valid_months(t as int) ==> r matches Err(
                Error::IntervalOutOfRange,
            )),
    {
        match value {
            ScaledValue::DivisorZero => Err(Error::DivideByZero),
            ScaledValue::Infinite => Err(Error::NumericOverflow),
            ScaledValue::NotANumber => Err(Error::InvalidNumber),
            ScaledValue::Truncated(t) => {
                if t < -(INTERVAL_MAX_MONTH as i64) || t > INTERVAL_MAX_MONTH as i64 {
                    Err(Error::IntervalOutOfRange)
                } else {
                    IntervalYM::try_from_months(t as i32)
                }
            },
        }
    }

    /// The signed whole years, rounded toward zero.
    pub fn year(&self) -> (r: Option<i32>)
        ensures
            r == Some(trunc_div(self@, 12) as i32),
    {
        Some(self.0 / 12)
    }

    /// The signed months beyond the whole years; it has the sign of the interval.
    pub fn month(&self) -> (r: Option<i32>)
        ensures
            r == Some(trunc_rem(self@, 12) as i32),
    {
        Some(self.0 % 12)
    }

    /// A year-month interval has no day field.
    pub fn day(&self) -> (r: Option<i32>)
        ensures
            r is None,
    {
        None
    }

    /// A year-month interval has no hour field.
    pub fn hour(&self) -> (r: Option<i32>)
        ensures
            r is None,
    {
        None
    }

    /// A year-month interval has no minute field.
    pub fn minute(&self) -> (r: Option<i32>)
        ensures
            r is None,
    {
        None
    }

    /// A year-month interval has no second field.
    pub fn second_usecs(&self) -> (r: Option<i64>)
        ensures
            r is None,
    {
        None
    }
}

impl core::ops::Neg for IntervalYM {
    type Output = IntervalYM;

    fn neg(self) -> (r: IntervalYM)
        ensures
            r@ == -self@,
    {
        self.negate()
    }
}

impl vstd::std_specs::ops::NegSpecImpl for IntervalYM {
    open spec fn obeys_neg_spec() -> bool {
        true
    }

    open spec fn neg_req(self) -> bool {
        true
    }

    open spec fn neg_spec(self) -> IntervalYM {
        self.negated()
    }
}

} // verus!
