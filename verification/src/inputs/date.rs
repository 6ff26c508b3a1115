//! A field for a day of the calendar, typed in a fixed format.

use crate::calendar;
use crate::calendar::{date_read, date_written, DateView};
use crate::errors::{Error, ErrorView, FieldResult, ParseFailure, ParseFailureView};
use crate::field::UserInput;
use crate::rules::{judged, Rule, Validations};
use vstd::prelude::*;

verus! {

/// What parsing the text `raw` as a date in the format `format` and asking
/// `rules` about the date gives.
pub open spec fn date_outcome<R: Rule<calendar::Date>>(
    raw: Seq<char>,
    format: Seq<char>,
    rules: Seq<R>,
) -> Result<DateView, ErrorView> {
    match date_read(raw, format) {
        Err(message) => Err(ErrorView::Parse(ParseFailureView::Date(message))),
        Ok((year, month, day)) => judged::<calendar::Date, R>(rules, DateView { year, month, day }),
    }
}

/// The text of `date` in the format `format`, where there is one.
pub open spec fn date_text(date: DateView, format: Seq<char>) -> Option<Seq<char>> {
    date_written(date.year, date.month, date.day, format)
}

/// A field for a date. Its format is fixed when the field is made: it is used
/// both to write a date into the field and to read the field's text.
pub struct Date<R: Rule<calendar::Date>> {
    input: String,
    format: &'static str,
    validations: Validations<calendar::Date, R>,
}

/// A field for a date without a time zone.
pub type NaiveDate<R> = Date<R>;

impl<R: Rule<calendar::Date>> Date<R> {
    /// The raw text that the field holds.
    pub closed spec fn raw(&self) -> Seq<char> {
        self.input@
    }

    /// The field's format.
    pub closed spec fn format(&self) -> Seq<char> {
        self.format@
    }

    /// The field's rules, in registration order.
    pub closed spec fn rules(&self) -> Seq<R> {
        self.validations.rules()
    }

    /// What the field's text parses to.
    pub open spec fn reading(&self) -> Result<DateView, ErrorView> {
        date_outcome(self.raw(), self.format(), self.rules())
    }

    pub fn get_input(&self) -> (r: &str)
        ensures
            r@ == self.raw(),
    {
        self.input.as_str()
    }

    /// A field that shows `data` in the format `format` and carries
    /// `validations`, for a format that can be applied to `data`.
    pub fn new(data: calendar::Date, format: &'static str, validations: Validations<calendar::Date, R>)
        -> (r: Date<R>)
        requires
            date_text(data@, format@) is Some,
        ensures
            Some(r.raw()) == date_text(data@, format@),
            r.format() == format@,
            r.rules() == validations.rules(),
    {
        let input = match data.format(format) {
            Some(text) => text,
            None => vstd::pervasive::unreached(),
        };
        Date { input, format, validations }
    }

    /// The field that `new` makes; `None` where the format cannot be applied
    /// to `data`.
    pub fn try_new(
        data: calendar::Date,
        format: &'static str,
        validations: Validations<calendar::Date, R>,
    ) -> (r: Option<Date<R>>)
        ensures
            r is Some <==> date_text(data@, format@) is Some,
            r matches Some(field) ==> {
                &&& Some(field.raw()) == date_text(data@, format@)
                &&& field.format() == format@
                &&& field.rules() == validations.rules()
            },
    {
        match data.format(format) {
            Some(_) => Some(Date::new(data, format, validations)),
            None => None,
        }
    }

    /// Sets the field to the text of `data` where the field's format can be
    /// applied to it, and says whether it did; otherwise the field stays as
    /// it is.
    pub fn try_set_value(&mut self, data: calendar::Date) -> (r: bool)
        ensures
            r == (date_text(data@, old(self).format()) is Some),
            r ==> old(self).shows(data, *final(self)),
            !r ==> *final(self) == *old(self),
    {
        match data.format(self.format) {
            Some(_) => {
                self.set_value(data);
                true
            },
            None => false,
        }
    }

    /// A field without rules that shows `today` as year, month and day with
    /// hyphens between them. Should that format not apply, the field starts
    /// empty.
    pub fn starting(today: calendar::Date) -> (r: Date<R>)
        ensures
            r.format() == "%Y-%m-%d"@,
            r.rules() == Seq::<R>::empty(),
            r.raw() == match date_text(today@, "%Y-%m-%d"@) {
                Some(text) => text,
                None => Seq::<char>::empty(),
            },
    {
        let input = match today.format("%Y-%m-%d") {
            Some(text) => text,
            None => String::new(),
        };
        Date { input, format: "%Y-%m-%d", validations: Validations::new() }
    }
}

impl<R: Rule<calendar::Date>> Default for Date<R> {
    /// A field without rules that shows the day on which it is made, as year,
    /// month and day with hyphens between them.
    fn default() -> (r: Date<R>)
        ensures
            r.format() == "%Y-%m-%d"@,
            r.rules() == Seq::<R>::empty(),
            exists|today: DateView|
                calendar::is_date(today.year, today.month, today.day) && r.raw() == match date_text(
                    today,
                    "%Y-%m-%d"@,
                ) {
                    Some(text) => text,
                    None => Seq::<char>::empty(),
                },
    {
        let today = calendar::Date::today();
        let r = Date::starting(today);
        assert(calendar::is_date(today@.year, today@.month, today@.day) && r.raw() == match date_text(
            today@,
            "%Y-%m-%d"@,
        ) {
            Some(text) => text,
            None => Seq::<char>::empty(),
        });
        r
    }
}

impl<R: Rule<calendar::Date>> UserInput for Date<R> {
    type Output = calendar::Date;

    type Input = String;

    open spec fn outcome(&self) -> Result<DateView, ErrorView> {
        self.reading()
    }

    open spec fn updated(&self, input: String, next: Self) -> bool {
        &&& next.raw() == input@
        &&& next.format() == self.format()
        &&& next.rules() == self.rules()
    }

    /// A date can be shown where the field's format can be applied to it.
    open spec fn can_show(&self, data: calendar::Date) -> bool {
        date_text(data@, self.format()) is Some
    }

    open spec fn shows(&self, data: calendar::Date, next: Self) -> bool {
        &&& Some(next.raw()) == date_text(data@, self.format())
        &&& next.format() == self.format()
        &&& next.rules() == self.rules()
    }

    fn update(&mut self, input: String) {
        self.input = input;
    }

    fn parse(&self) -> (r: FieldResult<calendar::Date>) {
        let parsed = match calendar::Date::parse(self.input.as_str(), self.format) {
            Ok(date) => date,
            Err(message) => {
                return Err(Error::Parse(ParseFailure::Date(message)));
            },
        };
        match self.validations.validate(&parsed) {
            Ok(_) => Ok(parsed),
            Err(errors) => Err(Error::Validation(errors)),
        }
    }

    fn set_value(&mut self, data: calendar::Date) {
        self.input = match data.format(self.format) {
            Some(text) => text,
            None => vstd::pervasive::unreached(),
        };
    }
}

} // verus!
