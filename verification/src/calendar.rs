//! Calendar values at the resolutions that the fields produce: a day, a
//! month, a quarter, a year, and a run of consecutive periods.

use vstd::prelude::*;

verus! {

/// The first year that a date can lie in.
pub const MIN_YEAR: i32 = -262143;

/// The last year that a date can lie in.
pub const MAX_YEAR: i32 = 262142;

/// Whether `year` has a 29th of February, in the proleptic Gregorian
/// calendar, where the year before year 1 is year 0.
pub open spec fn is_leap_year(year: int) -> bool {
    year % 4 == 0 && (year % 100 != 0 || year % 400 == 0)
}

/// The number of days of month `month` of `year`.
pub open spec fn days_in_month(year: int, month: int) -> int {
    if month == 2 {
        if is_leap_year(year) {
            29
        } else {
            28
        }
    } else if month == 4 || month == 6 || month == 9 || month == 11 {
        30
    } else {
        31
    }
}

/// Whether `year`, `month` and `day` name a day of the calendar.
pub open spec fn is_date(year: int, month: int, day: int) -> bool {
    &&& MIN_YEAR <= year <= MAX_YEAR
    &&& 1 <= month <= 12
    &&& 1 <= day <= days_in_month(year, month)
}

/// What `text` reads as under the format `format`: the year, month and day of
/// a date, or the message of the refusal.
pub uninterp spec fn date_read(text: Seq<char>, format: Seq<char>) -> Result<
    (int, int, int),
    Seq<char>,
>;

/// The text of the day `day` of month `month` of `year` under the format
/// `format`; `None` where the format cannot be applied to a date.
pub uninterp spec fn date_written(year: int, month: int, day: int, format: Seq<char>) -> Option<
    Seq<char>,
>;

/// `chrono::NaiveDate::from_ymd_opt`, with the date handed back as the year,
/// month and day that `chrono::Datelike` reads from it: the three numbers
/// come back where they name a day of the calendar within chrono's range of
/// years, and `None` otherwise.
#[verifier::external_body]
fn checked_date(year: i32, month: u32, day: u32) -> (r: Option<(i32, u32, u32)>)
    ensures
        r == if is_date(year as int, month as int, day as int) {
            Some((year, month, day))
        } else {
            None::<(i32, u32, u32)>
        },
{
    match chrono::NaiveDate::from_ymd_opt(year, month, day) {
        Some(d) => Some((chrono::Datelike::year(&d), chrono::Datelike::month(&d), chrono::Datelike::day(&d))),
        None => None,
    }
}

/// `chrono::NaiveDate::parse_from_str`: the date that `text` reads as under
/// `format` as its year, month and day, which name a day of the calendar; or
/// the text of chrono's error. Both depend on the two arguments alone.
#[verifier::external_body]
fn read_date(text: &str, format: &str) -> (r: Result<(i32, u32, u32), String>)
    ensures
        match r {
            Ok((year, month, day)) => {
                &&& date_read(text@, format@) == Ok::<(int, int, int), Seq<char>>(
                    (year as int, month as int, day as int),
                )
                &&& is_date(year as int, month as int, day as int)
            },
            Err(message) => date_read(text@, format@) == Err::<(int, int, int), Seq<char>>(
                message@,
            ),
        },
{
    match chrono::NaiveDate::parse_from_str(text, format) {
        Ok(d) => Ok((chrono::Datelike::year(&d), chrono::Datelike::month(&d), chrono::Datelike::day(&d))),
        Err(e) => Err(e.to_string()),
    }
}

/// `chrono::NaiveDate::format`, written out with
/// `chrono::format::DelayedFormat::write_to`: the text of the date under
/// `format`, or `None` where chrono refuses the format for a date or the
/// three numbers name no date. It depends on the four arguments alone.
#[verifier::external_body]
fn write_date(year: i32, month: u32, day: u32, format: &str) -> (r: Option<String>)
    ensures
        match r {
            Some(text) => date_written(year as int, month as int, day as int, format@) == Some(
                text@,
            ),
            None => date_written(year as int, month as int, day as int, format@) is None,
        },
{
    let date = chrono::NaiveDate::from_ymd_opt(year, month, day)?;
    let mut out = String::new();
    match date.format(format).write_to(&mut out) {
        Ok(_) => Some(out),
        Err(_) => None,
    }
}

/// `chrono::Utc::now`, cut down to its date with
/// `chrono::DateTime::date_naive`: the year, month and day of some day of the
/// calendar. Which day depends on the clock; chrono gives up on a clock that
/// stands before 1970.
#[verifier::external_body]
fn clock_date() -> (r: (i32, u32, u32))
    ensures
        is_date(r.0 as int, r.1 as int, r.2 as int),
{
    let d = chrono::Utc::now().date_naive();
    (chrono::Datelike::year(&d), chrono::Datelike::month(&d), chrono::Datelike::day(&d))
}

/// What a `Date` holds.
pub struct DateView {
    pub year: int,
    pub month: int,
    pub day: int,
}

/// A day of the calendar.
#[derive(Clone, Copy, Debug, PartialEq, Eq, Structural)]
pub struct Date {
    year: i32,
    month: u32,
    day: u32,
}

impl View for Date {
    type V = DateView;

    closed spec fn view(&self) -> DateView {
        DateView { year: self.year as int, month: self.month as int, day: self.day as int }
    }
}

/// A parse result of `Date::parse`, as plain values.
pub open spec fn date_result_view(r: Result<Date, String>) -> Result<(int, int, int), Seq<char>> {
    match r {
        Ok(date) => Ok((date@.year, date@.month, date@.day)),
        Err(message) => Err(message@),
    }
}

impl Date {
    #[verifier::type_invariant]
    spec fn wf(self) -> bool {
        is_date(self.year as int, self.month as int, self.day as int)
    }

    /// The day `day` of month `month` of `year`, where there is such a day.
    pub fn new(year: i32, month: u32, day: u32) -> (r: Option<Date>)
        ensures
            r is Some <==> is_date(year as int, month as int, day as int),
            r matches Some(date) ==> date@ == (DateView {
                year: year as int,
                month: month as int,
                day: day as int,
            }),
    {
        match checked_date(year, month, day) {
            Some(_) => Some(Date { year, month, day }),
            None => None,
        }
    }

    /// The day on which this is called, by the clock in UTC.
    pub fn today() -> (r: Date)
        ensures
            is_date(r@.year, r@.month, r@.day),
    {
        let (year, month, day) = clock_date();
        Date { year, month, day }
    }

    /// Reads `text` as a date in the format `format`.
    pub fn parse(text: &str, format: &str) -> (r: Result<Date, String>)
        ensures
            date_result_view(r) == date_read(text@, format@),
            r matches Ok(date) ==> is_date(date@.year, date@.month, date@.day),
    {
        match read_date(text, format) {
            Ok((year, month, day)) => Ok(Date { year, month, day }),
            Err(message) => Err(message),
        }
    }

    /// The text of this date in the format `format`, where the format can be
    /// applied to a date.
    pub fn format(&self, format: &str) -> (r: Option<String>)
        ensures
            match r {
                Some(text) => date_written(self@.year, self@.month, self@.day, format@) == Some(
                    text@,
                ),
                None => date_written(self@.year, self@.month, self@.day, format@) is None,
            },
    {
        write_date(self.year, self.month, self.day, format)
    }

    pub fn year(&self) -> (r: i32)
        ensures
            r == self@.year,
            MIN_YEAR <= r <= MAX_YEAR,
    {
        proof {
            use_type_invariant(self);
        }
        self.year
    }

    pub fn month(&self) -> (r: u32)
        ensures
            r == self@.month,
            1 <= r <= 12,
    {
        proof {
            use_type_invariant(self);
        }
        self.month
    }

    pub fn day(&self) -> (r: u32)
        ensures
            r == self@.day,
            1 <= r <= days_in_month(self@.year, self@.month),
    {
        proof {
            use_type_invariant(self);
        }
        self.day
    }
}

/// A year of the calendar.
#[derive(Clone, Copy, Debug, PartialEq, Eq, Structural)]
pub struct Year {
    num: i32,
}

impl View for Year {
    type V = int;

    /// The number of the year.
    closed spec fn view(&self) -> int {
        self.num as int
    }
}

impl Year {
    pub fn new(num: i32) -> (r: Year)
        ensures
            r@ == num,
    {
        Year { num }
    }

    /// The year that `date` lies in.
    pub fn from_date(date: &Date) -> (r: Year)
        ensures
            r@ == date@.year,
    {
        Year { num: date.year() }
    }

    pub fn year_num(&self) -> (r: i32)
        ensures
            r == self@,
    {
        self.num
    }
}

/// What a `Month` holds.
pub struct MonthView {
    pub year: int,
    pub month: int,
}

/// A month of a year.
#[derive(Clone, Copy, Debug, PartialEq, Eq, Structural)]
pub struct Month {
    year: i32,
    month: u32,
}

impl View for Month {
    type V = MonthView;

    closed spec fn view(&self) -> MonthView {
        MonthView { year: self.year as int, month: self.month as int }
    }
}

impl Month {
    #[verifier::type_invariant]
    spec fn wf(self) -> bool {
        1 <= self.month <= 12
    }

    /// Month `month` of `year`, counted from 1 for January; `None` where
    /// `month` is not within 1 to 12.
    pub fn new(year: i32, month: u32) -> (r: Option<Month>)
        ensures
            r is Some <==> 1 <= month <= 12,
            r matches Some(m) ==> m@ == (MonthView { year: year as int, month: month as int }),
    {
        if 1 <= month && month <= 12 {
            Some(Month { year, month })
        } else {
            None
        }
    }

    /// Month `month` of `year`, for a `month` that is known to be one.
    pub fn of(year: i32, month: u32) -> (r: Month)
        requires
            1 <= month <= 12,
        ensures
            r@ == (MonthView { year: year as int, month: month as int }),
    {
        Month { year, month }
    }

    /// The month that `date` lies in.
    pub fn from_date(date: &Date) -> (r: Month)
        ensures
            r@ == (MonthView { year: date@.year, month: date@.month }),
    {
        Month { year: date.year(), month: date.month() }
    }

    pub fn year(&self) -> (r: Year)
        ensures
            r@ == self@.year,
    {
        Year::new(self.year)
    }

    pub fn month_num(&self) -> (r: u32)
        ensures
            r == self@.month,
            1 <= r <= 12,
    {
        proof {
            use_type_invariant(self);
        }
        self.month
    }
}

/// What a `Quarter` holds.
pub struct QuarterView {
    pub year: int,
    pub quarter: int,
}

/// A quarter of a year.
#[derive(Clone, Copy, Debug, PartialEq, Eq, Structural)]
pub struct Quarter {
    year: i32,
    quarter: u32,
}

impl View for Quarter {
    type V = QuarterView;

    closed spec fn view(&self) -> QuarterView {
        QuarterView { year: self.year as int, quarter: self.quarter as int }
    }
}

/// The first month of quarter `quarter`.
pub open spec fn first_month_of(quarter: int) -> int {
    quarter * 3 - 2
}

/// The quarter that month `month` lies in.
pub open spec fn quarter_of(month: int) -> int {
    (month + 2) / 3
}

impl Quarter {
    #[verifier::type_invariant]
    spec fn wf(self) -> bool {
        1 <= self.quarter <= 4
    }

    /// Quarter `quarter` of `year`, counted from 1; `None` where `quarter`
    /// is not within 1 to 4.
    pub fn new(year: i32, quarter: u32) -> (r: Option<Quarter>)
        ensures
            r is Some <==> 1 <= quarter <= 4,
            r matches Some(q) ==> q@ == (QuarterView {
                year: year as int,
                quarter: quarter as int,
            }),
    {
        if 1 <= quarter && quarter <= 4 {
            Some(Quarter { year, quarter })
        } else {
            None
        }
    }

    /// Quarter `quarter` of `year`, for a `quarter` that is known to be one.
    pub fn of(year: i32, quarter: u32) -> (r: Quarter)
        requires
            1 <= quarter <= 4,
        ensures
            r@ == (QuarterView { year: year as int, quarter: quarter as int }),
    {
        Quarter { year, quarter }
    }

    /// The quarter that `date` lies in.
    pub fn from_date(date: &Date) -> (r: Quarter)
        ensures
            r@ == (QuarterView { year: date@.year, quarter: quarter_of(date@.month) }),
    {
        Quarter { year: date.year(), quarter: (date.month() + 2) / 3 }
    }

    pub fn year(&self) -> (r: Year)
        ensures
            r@ == self@.year,
    {
        Year::new(self.year)
    }

    pub fn quarter_num(&self) -> (r: u32)
        ensures
            r == self@.quarter,
            1 <= r <= 4,
    {
        proof {
            use_type_invariant(self);
        }
        self.quarter
    }

    /// The number of the quarter's first month.
    pub fn first_month(&self) -> (r: u32)
        ensures
            r == first_month_of(self@.quarter),
            1 <= r <= 10,
    {
        proof {
            use_type_invariant(self);
        }
        self.quarter * 3 - 2
    }
}

/// What a `TimeRange` holds.
pub struct TimeRangeView<V> {
    pub start: V,
    pub len: int,
}

/// A run of `len` consecutive periods of one resolution, the first of which
/// is `start`.
#[derive(Debug, PartialEq, Eq)]
pub struct TimeRange<S> {
    start: S,
    len: u32,
}

impl<S: View> View for TimeRange<S> {
    type V = TimeRangeView<S::V>;

    closed spec fn view(&self) -> TimeRangeView<S::V> {
        TimeRangeView { start: self.start@, len: self.len as int }
    }
}

impl<S: View> TimeRange<S> {
    /// The first period of the range.
    pub closed spec fn first(&self) -> S {
        self.start
    }

    pub fn new(start: S, len: u32) -> (r: TimeRange<S>)
        ensures
            r@ == (TimeRangeView { start: start@, len: len as int }),
            r.first() == start,
    {
        TimeRange { start, len }
    }

    pub fn start(&self) -> (r: &S)
        ensures
            *r == self.first(),
            r@ == self@.start,
    {
        &self.start
    }

    /// The range's start, with the range given up.
    pub fn into_start(self) -> (r: S)
        ensures
            r == self.first(),
            r@ == self@.start,
    {
        self.start
    }

    pub fn len(&self) -> (r: u32)
        ensures
            r == self@.len,
    {
        self.len
    }
}

} // verus!
