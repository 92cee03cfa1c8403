use vstd::prelude::*;

verus! {

/// The failures of the interval operations.
#[derive(Debug, Clone, PartialEq, Eq)]
pub enum Error {
    /// A value exceeds the symmetric bound of its interval type.
    IntervalOutOfRange,
    /// A month field is 12 or more.
    InvalidMonth,
    /// An hour field is 24 or more.
    TimeOutOfRange,
    /// A minute field is 60 or more.
    InvalidMinute,
    /// A second field is 60 or more.
    InvalidSecond,
    /// A microsecond field exceeds 999999.
    InvalidFraction,
    /// A scaled value is infinite.
    NumericOverflow,
    /// A scaled value is not a number.
    InvalidNumber,
    /// A division by exactly zero.
    DivideByZero,
    /// The input text does not match the pattern, or the pattern names a field
    /// that the interval type cannot hold.
    ParseError(String),
    /// The pattern holds an unknown token.
    InvalidFormat(String),
}

pub type Result<T> = core::result::Result<T, Error>;

} // verus!
