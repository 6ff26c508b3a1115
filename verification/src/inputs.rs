//! The fields that the library provides.

pub mod date;
pub mod period;
pub mod range;
pub mod scalar;
pub mod select;

pub use date::{Date, NaiveDate};
pub use period::{Month, MonthMsg, Quarter, QuarterMsg, RelativeMonth, RelativeQuarter, Year};
pub use crate::errors::SelectError;
pub use range::{DateResolution, TimeRange, TimeRangeMsg};
pub use scalar::{Decimal, Integer, Scalar, Text};
pub use select::{BasicSelect, RelationalSelect, Select};
