//! Year-month and day-time intervals with checked fixed-point arithmetic and a
//! pattern-driven text codec.

pub mod consts;
pub mod decimal;
pub mod error;
pub mod interval_dt;
pub mod interval_ym;
pub mod pattern;
pub mod round_trip;
pub mod time;

pub use consts::{ScaledValue, Sign};
pub use error::Error;
pub use interval_dt::IntervalDT;
pub use interval_ym::IntervalYM;
pub use pattern::{Formatter, NaiveDateTime};
pub use time::Time;
