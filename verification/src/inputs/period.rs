//! Fields for a year, for a month or a quarter within a year, and the
//! composite fields that assemble a month or a quarter of a given year.

use crate::calendar;
use crate::errors::{Error, ErrorView, FieldResult, ValidationErrors};
use crate::field::UserInput;
use crate::rules::{judged, Rule, Validations};
use crate::text::{lemma_read_bounds, read_number, written_int, TextValue};
use vstd::prelude::*;

verus! {

/// What parsing the text `raw` as a year and asking `rules` about it gives.
pub open spec fn year_outcome<R: Rule<calendar::Year>>(raw: Seq<char>, rules: Seq<R>) -> Result<
    int,
    ErrorView,
> {
    match read_number(raw, true, i32::MIN as int, i32::MAX as int) {
        Err(cause) => Err(ErrorView::Parse(cause)),
        Ok(number) => judged::<calendar::Year, R>(rules, number),
    }
}

/// A field for a year.
pub struct Year<R: Rule<calendar::Year>> {
    input: String,
    validations: Validations<calendar::Year, R>,
}

impl<R: Rule<calendar::Year>> Year<R> {
    /// The raw text that the field holds.
    pub closed spec fn raw(&self) -> Seq<char> {
        self.input@
    }

    /// The field's rules, in registration order.
    pub closed spec fn rules(&self) -> Seq<R> {
        self.validations.rules()
    }

    /// What the field's text parses to.
    pub open spec fn reading(&self) -> Result<int, ErrorView> {
        year_outcome(self.raw(), self.rules())
    }

    pub fn get_input(&self) -> (r: &str)
        ensures
            r@ == self.raw(),
    {
        self.input.as_str()
    }

    /// A field that shows `data` and carries `validations`.
    pub fn new(data: calendar::Year, validations: Validations<calendar::Year, R>) -> (r: Year<R>)
        ensures
            r.raw() == written_int(data@),
            r.rules() == validations.rules(),
    {
        Year { input: data.year_num().to_text(), validations }
    }

    /// A field without rules that shows the year of `today`.
    pub fn starting(today: &calendar::Date) -> (r: Year<R>)
        ensures
            r.raw() == written_int(today@.year),
            r.rules() == Seq::<R>::empty(),
    {
        Year::new(calendar::Year::from_date(today), Validations::new())
    }
}

impl<R: Rule<calendar::Year>> Default for Year<R> {
    /// A field without rules that shows the year of the day on which it is
    /// made.
    fn default() -> (r: Year<R>)
        ensures
            r.rules() == Seq::<R>::empty(),
            exists|year: int|
                calendar::MIN_YEAR <= year <= calendar::MAX_YEAR && r.raw() == written_int(year),
    {
        let today = calendar::Date::today();
        let r = Year::starting(&today);
        assert(calendar::MIN_YEAR <= today@.year <= calendar::MAX_YEAR && r.raw() == written_int(
            today@.year,
        ));
        r
    }
}

impl<R: Rule<calendar::Year>> UserInput for Year<R> {
    type Output = calendar::Year;

    type Input = String;

    open spec fn outcome(&self) -> Result<int, ErrorView> {
        self.reading()
    }

    open spec fn updated(&self, input: String, next: Self) -> bool {
        next.raw() == input@ && next.rules() == self.rules()
    }

    open spec fn can_show(&self, data: calendar::Year) -> bool {
        true
    }

    open spec fn shows(&self, data: calendar::Year, next: Self) -> bool {
        next.raw() == written_int(data@) && next.rules() == self.rules()
    }

    fn update(&mut self, input: String) {
        self.input = input;
    }

    fn parse(&self) -> (r: FieldResult<calendar::Year>) {
        proof {
            lemma_read_bounds(self.raw(), true, i32::MIN as int, i32::MAX as int);
        }
        let number = match i32::from_text(self.input.as_str()) {
            Ok(number) => number,
            Err(cause) => {
                return Err(Error::Parse(cause));
            },
        };
        let parsed = calendar::Year::new(number);
        match self.validations.validate(&parsed) {
            Ok(_) => Ok(parsed),
            Err(errors) => Err(Error::Validation(errors)),
        }
    }

    fn set_value(&mut self, data: calendar::Year) {
        self.input = data.year_num().to_text();
    }
}

/// The sentence that refuses `number` as the number of a month.
pub open spec fn month_range_message(number: int) -> Seq<char> {
    "Month number should be between 1 and 12 but was "@ + written_int(number)
}

/// The sentence that refuses `number` as the number of a quarter.
pub open spec fn quarter_range_message(number: int) -> Seq<char> {
    "Quarter number should be between 1 and 4 but was "@ + written_int(number)
}

/// What parsing the text `raw` as a number within `1 ..= last` and asking
/// `rules` about it gives. A number outside that range is refused with one
/// message, `refusal` followed by the number, and the rules are not asked.
pub open spec fn ordinal_outcome<R: Rule<u32>>(
    raw: Seq<char>,
    rules: Seq<R>,
    last: int,
    refusal: Seq<char>,
) -> Result<u32, ErrorView> {
    match read_number(raw, false, 0, u32::MAX as int) {
        Err(cause) => Err(ErrorView::Parse(cause)),
        Ok(number) => if number < 1 || number > last {
            Err(ErrorView::Validation(seq![refusal + written_int(number)]))
        } else {
            judged::<u32, R>(rules, number as u32)
        },
    }
}

/// An outcome of `ordinal_outcome` that is a value lies within `1 ..= last`.
pub proof fn lemma_ordinal_range<R: Rule<u32>>(
    raw: Seq<char>,
    rules: Seq<R>,
    last: int,
    refusal: Seq<char>,
)
    requires
        0 <= last <= u32::MAX,
    ensures
        ordinal_outcome(raw, rules, last, refusal) matches Ok(number) ==> 1 <= number <= last,
{
    lemma_read_bounds(raw, false, 0, u32::MAX as int);
}

/// Parses `raw` as a number within `1 ..= last`.
fn parse_ordinal<R: Rule<u32>>(
    raw: &str,
    validations: &Validations<u32, R>,
    last: u32,
    refusal: &str,
) -> (r: FieldResult<u32>)
    ensures
        crate::field::outcome_view(r) == ordinal_outcome(
            raw@,
            validations.rules(),
            last as int,
            refusal@,
        ),
{
    proof {
        lemma_read_bounds(raw@, false, 0, u32::MAX as int);
    }
    let parsed = match u32::from_text(raw) {
        Ok(number) => number,
        Err(cause) => {
            return Err(Error::Parse(cause));
        },
    };
    if parsed < 1 || parsed > last {
        let mut message = refusal.to_owned();
        message.append(parsed.to_text().as_str());
        let mut messages: Vec<String> = Vec::new();
        messages.push(message);
        let errors = ValidationErrors::from(messages);
        assert(errors@ == seq![refusal@ + written_int(parsed as int)]);
        return Err(Error::Validation(errors));
    }
    match validations.validate(&parsed) {
        Ok(_) => Ok(parsed),
        Err(errors) => Err(Error::Validation(errors)),
    }
}

/// A field for the number of a month within its year, from 1 to 12.
pub struct RelativeMonth<R: Rule<u32>> {
    input: String,
    validations: Validations<u32, R>,
}

impl<R: Rule<u32>> RelativeMonth<R> {
    /// The raw text that the field holds.
    pub closed spec fn raw(&self) -> Seq<char> {
        self.input@
    }

    /// The field's rules, in registration order.
    pub closed spec fn rules(&self) -> Seq<R> {
        self.validations.rules()
    }

    pub fn get_input(&self) -> (r: &str)
        ensures
            r@ == self.raw(),
    {
        self.input.as_str()
    }

    /// What the field's text parses to.
    pub open spec fn reading(&self) -> Result<u32, ErrorView> {
        ordinal_outcome(self.raw(), self.rules(), 12, "Month number should be between 1 and 12 but was "@)
    }

    /// A field that shows `data` and carries `validations`. `data` need not
    /// be the number of a month: a number that is none fails to parse.
    pub fn new(data: u32, validations: Validations<u32, R>) -> (r: RelativeMonth<R>)
        ensures
            r.raw() == written_int(data as int),
            r.rules() == validations.rules(),
    {
        RelativeMonth { input: data.to_text(), validations }
    }

    /// A field without rules that shows the month of `today`.
    pub fn starting(today: &calendar::Date) -> (r: RelativeMonth<R>)
        ensures
            r.raw() == written_int(today@.month),
            r.rules() == Seq::<R>::empty(),
    {
        RelativeMonth::new(today.month(), Validations::new())
    }
}

impl<R: Rule<u32>> Default for RelativeMonth<R> {
    /// A field without rules that shows the month of the day on which it is
    /// made.
    fn default() -> (r: RelativeMonth<R>)
        ensures
            r.rules() == Seq::<R>::empty(),
            exists|number: int| 1 <= number <= 12 && r.raw() == written_int(number),
    {
        RelativeMonth::starting(&calendar::Date::today())
    }
}

impl<R: Rule<u32>> UserInput for RelativeMonth<R> {
    type Output = u32;

    type Input = String;

    open spec fn outcome(&self) -> Result<u32, ErrorView> {
        self.reading()
    }

    open spec fn updated(&self, input: String, next: Self) -> bool {
        next.raw() == input@ && next.rules() == self.rules()
    }

    open spec fn can_show(&self, data: u32) -> bool {
        true
    }

    open spec fn shows(&self, data: u32, next: Self) -> bool {
        next.raw() == written_int(data as int) && next.rules() == self.rules()
    }

    fn update(&mut self, input: String) {
        self.input = input;
    }

    fn parse(&self) -> (r: FieldResult<u32>) {
        parse_ordinal(self.input.as_str(), &self.validations, 12, "Month number should be between 1 and 12 but was ")
    }

    fn set_value(&mut self, data: u32) {
        self.input = data.to_text();
    }
}

/// A field for the number of a quarter within its year, from 1 to 4.
pub struct RelativeQuarter<R: Rule<u32>> {
    input: String,
    validations: Validations<u32, R>,
}

impl<R: Rule<u32>> RelativeQuarter<R> {
    /// The raw text that the field holds.
    pub closed spec fn raw(&self) -> Seq<char> {
        self.input@
    }

    /// The field's rules, in registration order.
    pub closed spec fn rules(&self) -> Seq<R> {
        self.validations.rules()
    }

    pub fn get_input(&self) -> (r: &str)
        ensures
            r@ == self.raw(),
    {
        self.input.as_str()
    }

    /// What the field's text parses to.
    pub open spec fn reading(&self) -> Result<u32, ErrorView> {
        ordinal_outcome(self.raw(), self.rules(), 4, "Quarter number should be between 1 and 4 but was "@)
    }

    /// A field that shows `data` and carries `validations`. `data` need not
    /// be the number of a quarter: a number that is none fails to parse.
    pub fn new(data: u32, validations: Validations<u32, R>) -> (r: RelativeQuarter<R>)
        ensures
            r.raw() == written_int(data as int),
            r.rules() == validations.rules(),
    {
        RelativeQuarter { input: data.to_text(), validations }
    }

    /// A field without rules that shows the quarter of `today`.
    pub fn starting(today: &calendar::Date) -> (r: RelativeQuarter<R>)
        ensures
            r.raw() == written_int(calendar::quarter_of(today@.month)),
            r.rules() == Seq::<R>::empty(),
    {
        RelativeQuarter::new((today.month() + 2) / 3, Validations::new())
    }
}

impl<R: Rule<u32>> Default for RelativeQuarter<R> {
    /// A field without rules that shows the quarter of the day on which it is
    /// made.
    fn default() -> (r: RelativeQuarter<R>)
        ensures
            r.rules() == Seq::<R>::empty(),
            exists|number: int| 1 <= number <= 4 && r.raw() == written_int(number),
    {
        RelativeQuarter::starting(&calendar::Date::today())
    }
}

impl<R: Rule<u32>> UserInput for RelativeQuarter<R> {
    type Output = u32;

    type Input = String;

    open spec fn outcome(&self) -> Result<u32, ErrorView> {
        self.reading()
    }

    open spec fn updated(&self, input: String, next: Self) -> bool {
        next.raw() == input@ && next.rules() == self.rules()
    }

    open spec fn can_show(&self, data: u32) -> bool {
        true
    }

    open spec fn shows(&self, data: u32, next: Self) -> bool {
        next.raw() == written_int(data as int) && next.rules() == self.rules()
    }

    fn update(&mut self, input: String) {
        self.input = input;
    }

    fn parse(&self) -> (r: FieldResult<u32>) {
        parse_ordinal(self.input.as_str(), &self.validations, 4, "Quarter number should be between 1 and 4 but was ")
    }

    fn set_value(&mut self, data: u32) {
        self.input = data.to_text();
    }
}

/// The message that updates one child of a `Month` field.
pub enum MonthMsg {
    Year(String),
    Month(String),
}

/// What a month of a year is assembled to, from what its two children parse
/// to: the year's error where the year fails, whatever the month's text is;
/// else the month's error where that fails; else the month of that year, once
/// `rules` were asked about it.
pub open spec fn month_outcome<R: Rule<calendar::Month>>(
    year: Result<int, ErrorView>,
    month: Result<u32, ErrorView>,
    rules: Seq<R>,
) -> Result<calendar::MonthView, ErrorView> {
    match year {
        Err(error) => Err(error),
        Ok(year) => match month {
            Err(error) => Err(error),
            Ok(month) => judged::<calendar::Month, R>(
                rules,
                calendar::MonthView { year, month: month as int },
            ),
        },
    }
}

/// A composite field for a month of a year: a field for the year, a field for
/// the month within it, and rules for the two together.
pub struct Month<RY: Rule<calendar::Year>, RN: Rule<u32>, R: Rule<calendar::Month>> {
    year: Year<RY>,
    month: RelativeMonth<RN>,
    validations: Validations<calendar::Month, R>,
}

impl<RY: Rule<calendar::Year>, RN: Rule<u32>, R: Rule<calendar::Month>> Month<RY, RN, R> {
    /// The child field for the year.
    pub closed spec fn year_field(&self) -> Year<RY> {
        self.year
    }

    /// The child field for the month.
    pub closed spec fn month_field(&self) -> RelativeMonth<RN> {
        self.month
    }

    /// The rules for the assembled month, in registration order.
    pub closed spec fn rules(&self) -> Seq<R> {
        self.validations.rules()
    }

    pub fn get_year(&self) -> (r: &Year<RY>)
        ensures
            *r == self.year_field(),
    {
        &self.year
    }

    pub fn get_month(&self) -> (r: &RelativeMonth<RN>)
        ensures
            *r == self.month_field(),
    {
        &self.month
    }

    /// A field that shows `input`, with rules for each child and for the
    /// assembled month.
    pub fn new(
        input: calendar::Month,
        year_validations: Validations<calendar::Year, RY>,
        month_validations: Validations<u32, RN>,
        validations: Validations<calendar::Month, R>,
    ) -> (r: Month<RY, RN, R>)
        ensures
            r.year_field().raw() == written_int(input@.year),
            r.year_field().rules() == year_validations.rules(),
            r.month_field().raw() == written_int(input@.month),
            r.month_field().rules() == month_validations.rules(),
            r.rules() == validations.rules(),
    {
        Month {
            year: Year::new(input.year(), year_validations),
            month: RelativeMonth::new(input.month_num(), month_validations),
            validations,
        }
    }

    /// A field without rules that shows the month that `today` lies in.
    pub fn starting(today: &calendar::Date) -> (r: Month<RY, RN, R>)
        ensures
            r.year_field().raw() == written_int(today@.year),
            r.year_field().rules() == Seq::<RY>::empty(),
            r.month_field().raw() == written_int(today@.month),
            r.month_field().rules() == Seq::<RN>::empty(),
            r.rules() == Seq::<R>::empty(),
    {
        Month {
            year: Year::starting(today),
            month: RelativeMonth::starting(today),
            validations: Validations::new(),
        }
    }
}

impl<RY: Rule<calendar::Year>, RN: Rule<u32>, R: Rule<calendar::Month>> Default for Month<
    RY,
    RN,
    R,
> {
    /// A field without rules that shows the month in which it is made.
    fn default() -> (r: Month<RY, RN, R>)
        ensures
            r.year_field().rules() == Seq::<RY>::empty(),
            r.month_field().rules() == Seq::<RN>::empty(),
            r.rules() == Seq::<R>::empty(),
            exists|year: int, month: int|
                calendar::MIN_YEAR <= year <= calendar::MAX_YEAR && 1 <= month <= 12
                    && r.year_field().raw() == written_int(year) && r.month_field().raw()
                    == written_int(month),
    {
        let today = calendar::Date::today();
        let r = Month::starting(&today);
        assert(calendar::MIN_YEAR <= today@.year <= calendar::MAX_YEAR && 1 <= today@.month <= 12
            && r.year_field().raw() == written_int(today@.year) && r.month_field().raw()
            == written_int(today@.month));
        r
    }
}

impl<RY: Rule<calendar::Year>, RN: Rule<u32>, R: Rule<calendar::Month>> UserInput for Month<
    RY,
    RN,
    R,
> {
    type Output = calendar::Month;

    type Input = MonthMsg;

    open spec fn outcome(&self) -> Result<calendar::MonthView, ErrorView> {
        month_outcome(self.year_field().reading(), self.month_field().reading(), self.rules())
    }

    /// An update reaches the child that the message names and leaves the
    /// other child as it was.
    open spec fn updated(&self, input: MonthMsg, next: Self) -> bool {
        &&& next.rules() == self.rules()
        &&& match input {
            MonthMsg::Year(text) => {
                &&& next.year_field().raw() == text@
                &&& next.year_field().rules() == self.year_field().rules()
                &&& next.month_field() == self.month_field()
            },
            MonthMsg::Month(text) => {
                &&& next.month_field().raw() == text@
                &&& next.month_field().rules() == self.month_field().rules()
                &&& next.year_field() == self.year_field()
            },
        }
    }

    open spec fn can_show(&self, data: calendar::Month) -> bool {
        true
    }

    open spec fn shows(&self, data: calendar::Month, next: Self) -> bool {
        &&& next.rules() == self.rules()
        &&& next.year_field().raw() == written_int(data@.year)
        &&& next.year_field().rules() == self.year_field().rules()
        &&& next.month_field().raw() == written_int(data@.month)
        &&& next.month_field().rules() == self.month_field().rules()
    }

    fn update(&mut self, input: MonthMsg) {
        match input {
            MonthMsg::Year(text) => self.year.update(text),
            MonthMsg::Month(text) => self.month.update(text),
        }
    }

    fn parse(&self) -> (r: FieldResult<calendar::Month>) {
        let year = match self.year.parse() {
            Ok(year) => year,
            Err(error) => {
                return Err(error);
            },
        };
        let month = match self.month.parse() {
            Ok(month) => month,
            Err(error) => {
                return Err(error);
            },
        };
        proof {
            lemma_ordinal_range(self.month.raw(), self.month.rules(), 12, "Month number should be between 1 and 12 but was "@);
        }
        let parsed = calendar::Month::of(year.year_num(), month);
        match self.validations.validate(&parsed) {
            Ok(_) => Ok(parsed),
            Err(errors) => Err(Error::Validation(errors)),
        }
    }

    fn set_value(&mut self, data: calendar::Month) {
        self.year.set_value(data.year());
        self.month.set_value(data.month_num());
    }
}

/// The message that updates one child of a `Quarter` field.
pub enum QuarterMsg {
    Year(String),
    Quarter(String),
}

/// What a quarter of a year is assembled to, from what its two children parse
/// to: the year's error where the year fails, whatever the quarter's text is;
/// else the quarter's error where that fails; else the quarter of that year, once
/// `rules` were asked about it.
pub open spec fn quarter_outcome<R: Rule<calendar::Quarter>>(
    year: Result<int, ErrorView>,
    quarter: Result<u32, ErrorView>,
    rules: Seq<R>,
) -> Result<calendar::QuarterView, ErrorView> {
    match year {
        Err(error) => Err(error),
        Ok(year) => match quarter {
            Err(error) => Err(error),
            Ok(quarter) => judged::<calendar::Quarter, R>(
                rules,
                calendar::QuarterView { year, quarter: quarter as int },
            ),
        },
    }
}

/// A composite field for a quarter of a year: a field for the year, a field for
/// the quarter within it, and rules for the two together.
pub struct Quarter<RY: Rule<calendar::Year>, RN: Rule<u32>, R: Rule<calendar::Quarter>> {
    year: Year<RY>,
    quarter: RelativeQuarter<RN>,
    validations: Validations<calendar::Quarter, R>,
}

impl<RY: Rule<calendar::Year>, RN: Rule<u32>, R: Rule<calendar::Quarter>> Quarter<RY, RN, R> {
    /// The child field for the year.
    pub closed spec fn year_field(&self) -> Year<RY> {
        self.year
    }

    /// The child field for the quarter.
    pub closed spec fn quarter_field(&self) -> RelativeQuarter<RN> {
        self.quarter
    }

    /// The rules for the assembled quarter, in registration order.
    pub closed spec fn rules(&self) -> Seq<R> {
        self.validations.rules()
    }

    pub fn get_year(&self) -> (r: &Year<RY>)
        ensures
            *r == self.year_field(),
    {
        &self.year
    }

    pub fn get_quarter(&self) -> (r: &RelativeQuarter<RN>)
        ensures
            *r == self.quarter_field(),
    {
        &self.quarter
    }

    /// A field that shows `input`, with rules for each child and for the
    /// assembled quarter.
    pub fn new(
        input: calendar::Quarter,
        year_validations: Validations<calendar::Year, RY>,
        quarter_validations: Validations<u32, RN>,
        validations: Validations<calendar::Quarter, R>,
    ) -> (r: Quarter<RY, RN, R>)
        ensures
            r.year_field().raw() == written_int(input@.year),
            r.year_field().rules() == year_validations.rules(),
            r.quarter_field().raw() == written_int(input@.quarter),
            r.quarter_field().rules() == quarter_validations.rules(),
            r.rules() == validations.rules(),
    {
        Quarter {
            year: Year::new(input.year(), year_validations),
            quarter: RelativeQuarter::new(input.quarter_num(), quarter_validations),
            validations,
        }
    }

    /// A field without rules that shows the quarter that `today` lies in.
    pub fn starting(today: &calendar::Date) -> (r: Quarter<RY, RN, R>)
        ensures
            r.year_field().raw() == written_int(today@.year),
            r.year_field().rules() == Seq::<RY>::empty(),
            r.quarter_field().raw() == written_int(calendar::quarter_of(today@.month)),
            r.quarter_field().rules() == Seq::<RN>::empty(),
            r.rules() == Seq::<R>::empty(),
    {
        Quarter {
            year: Year::starting(today),
            quarter: RelativeQuarter::starting(today),
            validations: Validations::new(),
        }
    }
}

impl<RY: Rule<calendar::Year>, RN: Rule<u32>, R: Rule<calendar::Quarter>> Default for Quarter<
    RY,
    RN,
    R,
> {
    /// A field without rules that shows the quarter in which it is made.
    fn default() -> (r: Quarter<RY, RN, R>)
        ensures
            r.year_field().rules() == Seq::<RY>::empty(),
            r.quarter_field().rules() == Seq::<RN>::empty(),
            r.rules() == Seq::<R>::empty(),
            exists|year: int, quarter: int|
                calendar::MIN_YEAR <= year <= calendar::MAX_YEAR && 1 <= quarter <= 4
                    && r.year_field().raw() == written_int(year) && r.quarter_field().raw()
                    == written_int(quarter),
    {
        let today = calendar::Date::today();
        let r = Quarter::starting(&today);
        assert(calendar::MIN_YEAR <= today@.year <= calendar::MAX_YEAR && 1 <= calendar::quarter_of(today@.month) <= 4
            && r.year_field().raw() == written_int(today@.year) && r.quarter_field().raw()
            == written_int(calendar::quarter_of(today@.month)));
        r
    }
}

impl<RY: Rule<calendar::Year>, RN: Rule<u32>, R: Rule<calendar::Quarter>> UserInput for Quarter<
    RY,
    RN,
    R,
> {
    type Output = calendar::Quarter;

    type Input = QuarterMsg;

    open spec fn outcome(&self) -> Result<calendar::QuarterView, ErrorView> {
        quarter_outcome(self.year_field().reading(), self.quarter_field().reading(), self.rules())
    }

    /// An update reaches the child that the message names and leaves the
    /// other child as it was.
    open spec fn updated(&self, input: QuarterMsg, next: Self) -> bool {
        &&& next.rules() == self.rules()
        &&& match input {
            QuarterMsg::Year(text) => {
                &&& next.year_field().raw() == text@
                &&& next.year_field().rules() == self.year_field().rules()
                &&& next.quarter_field() == self.quarter_field()
            },
            QuarterMsg::Quarter(text) => {
                &&& next.quarter_field().raw() == text@
                &&& next.quarter_field().rules() == self.quarter_field().rules()
                &&& next.year_field() == self.year_field()
            },
        }
    }

    open spec fn can_show(&self, data: calendar::Quarter) -> bool {
        true
    }

    open spec fn shows(&self, data: calendar::Quarter, next: Self) -> bool {
        &&& next.rules() == self.rules()
        &&& next.year_field().raw() == written_int(data@.year)
        &&& next.year_field().rules() == self.year_field().rules()
        &&& next.quarter_field().raw() == written_int(data@.quarter)
        &&& next.quarter_field().rules() == self.quarter_field().rules()
    }

    fn update(&mut self, input: QuarterMsg) {
        match input {
            QuarterMsg::Year(text) => self.year.update(text),
            QuarterMsg::Quarter(text) => self.quarter.update(text),
        }
    }

    fn parse(&self) -> (r: FieldResult<calendar::Quarter>) {
        let year = match self.year.parse() {
            Ok(year) => year,
            Err(error) => {
                return Err(error);
            },
        };
        let quarter = match self.quarter.parse() {
            Ok(quarter) => quarter,
            Err(error) => {
                return Err(error);
            },
        };
        proof {
            lemma_ordinal_range(self.quarter.raw(), self.quarter.rules(), 4, "Quarter number should be between 1 and 4 but was "@);
        }
        let parsed = calendar::Quarter::of(year.year_num(), quarter);
        match self.validations.validate(&parsed) {
            Ok(_) => Ok(parsed),
            Err(errors) => Err(Error::Validation(errors)),
        }
    }

    fn set_value(&mut self, data: calendar::Quarter) {
        self.year.set_value(data.year());
        self.quarter.set_value(data.quarter_num());
    }
}

} // verus!
