//! Composite fields over a calendar resolution: a field that starts a period,
//! and a field for a run of periods of a given length.

use crate::calendar;
use crate::calendar::TimeRangeView;
use crate::errors::{Error, ErrorView, FieldResult};
use crate::field::UserInput;
use crate::inputs::scalar::Integer;
use crate::rules::{judged, GreaterThanZero, Rule, Validations};
use crate::text::written_int;
use std::marker::PhantomData;
use vstd::prelude::*;

verus! {

/// A field for a period of the resolution `R`, entered through the field `I`.
#[verifier::reject_recursive_types(R)]
pub struct DateResolution<I: UserInput<Output = R> + Default, R: View> {
    input: I,
    resolution: PhantomData<R>,
}

impl<I: UserInput<Output = R> + Default, R: View> DateResolution<I, R> {
    /// The field through which the period is entered.
    pub closed spec fn inner(&self) -> I {
        self.input
    }

    /// What the field parses to: what the inner field parses to.
    pub open spec fn reading(&self) -> Result<R::V, ErrorView> {
        self.inner().outcome()
    }

    pub fn new(input: I) -> (r: DateResolution<I, R>)
        ensures
            r.inner() == input,
    {
        DateResolution { input, resolution: PhantomData }
    }

    /// A default inner field, set to `data`.
    pub fn from_data(data: R) -> (r: DateResolution<I, R>)
        requires
            forall|fresh: I| call_ensures(I::default, (), fresh) ==> fresh.can_show(data),
        ensures
            exists|fresh: I| call_ensures(I::default, (), fresh) && fresh.shows(data, r.inner()),
    {
        let mut input = I::default();
        let ghost fresh = input;
        input.set_value(data);
        DateResolution::new(input)
    }

    pub fn get_input(&self) -> (r: &I)
        ensures
            *r == self.inner(),
    {
        &self.input
    }
}

impl<I: UserInput<Output = R> + Default, R: View> From<I> for DateResolution<I, R> {
    fn from(input: I) -> (r: DateResolution<I, R>)
        ensures
            r.inner() == input,
    {
        DateResolution::new(input)
    }
}

impl<I: UserInput<Output = R> + Default, R: View> vstd::std_specs::convert::FromSpecImpl<I> for DateResolution<I, R> {
    open spec fn obeys_from_spec() -> bool {
        true
    }

    closed spec fn from_spec(input: I) -> DateResolution<I, R> {
        DateResolution { input, resolution: PhantomData }
    }
}

impl<I: UserInput<Output = R> + Default, R: View> Default for DateResolution<I, R> {
    /// A default inner field.
    fn default() -> (r: DateResolution<I, R>)
        ensures
            call_ensures(I::default, (), r.inner()),
    {
        DateResolution::new(I::default())
    }
}

impl<I: UserInput<Output = R> + Default, R: View> UserInput for DateResolution<I, R> {
    type Output = R;

    type Input = I::Input;

    open spec fn outcome(&self) -> Result<R::V, ErrorView> {
        self.reading()
    }

    open spec fn updated(&self, input: I::Input, next: Self) -> bool {
        self.inner().updated(input, next.inner())
    }

    open spec fn can_show(&self, data: R) -> bool {
        self.inner().can_show(data)
    }

    open spec fn shows(&self, data: R, next: Self) -> bool {
        self.inner().shows(data, next.inner())
    }

    fn update(&mut self, input: I::Input) {
        self.input.update(input);
    }

    fn parse(&self) -> (r: FieldResult<R>) {
        self.input.parse()
    }

    fn set_value(&mut self, data: R) {
        self.input.set_value(data);
    }
}

/// The message that updates one child of a `TimeRange` field.
pub enum TimeRangeMsg<I: UserInput> {
    DateResolution { input: I::Input },
    Length(String),
}

/// What a range is assembled to, from what its start and its length parse
/// to: the start's error where the start fails; else the length's own error
/// where the length fails, be it in reading or by not being above zero; else
/// the rejections of `length_rules`, if there are any; else the range of
/// that start and length, once `range_rules` were asked about it.
pub open spec fn range_outcome<S: View, RL: Rule<u32>, RR: Rule<calendar::TimeRange<S>>>(
    start: Result<S::V, ErrorView>,
    length: Result<u32, ErrorView>,
    length_rules: Seq<RL>,
    range_rules: Seq<RR>,
) -> Result<TimeRangeView<S::V>, ErrorView> {
    match start {
        Err(error) => Err(error),
        Ok(start) => match length {
            Err(error) => Err(error),
            Ok(len) => match judged::<u32, RL>(length_rules, len) {
                Err(error) => Err(error),
                Ok(_) => judged::<calendar::TimeRange<S>, RR>(
                    range_rules,
                    TimeRangeView { start, len: len as int },
                ),
            },
        },
    }
}

/// A composite field for a run of periods: a field for the period that the
/// run starts with, a field for the number of periods, which must be above
/// zero, rules for that number and rules for the assembled range.
#[verifier::reject_recursive_types(R)]
pub struct TimeRange<
    I: UserInput<Output = R> + Default,
    R: View,
    RL: Rule<u32>,
    RR: Rule<calendar::TimeRange<R>>,
> {
    date_resolution: DateResolution<I, R>,
    length: Integer<u32, GreaterThanZero>,
    length_validations: Validations<u32, RL>,
    range_validations: Validations<calendar::TimeRange<R>, RR>,
}

/// The rule set of a length field: the one rule that the length is above zero.
fn above_zero() -> (r: Validations<u32, GreaterThanZero>)
    ensures
        r.rules() == seq![GreaterThanZero],
{
    let mut rules: Vec<GreaterThanZero> = Vec::new();
    rules.push(GreaterThanZero);
    Validations::from_vec(rules)
}

impl<
    I: UserInput<Output = R> + Default,
    R: View,
    RL: Rule<u32>,
    RR: Rule<calendar::TimeRange<R>>,
> TimeRange<I, R, RL, RR> {
    /// The child field for the period that the range starts with.
    pub closed spec fn start_field(&self) -> DateResolution<I, R> {
        self.date_resolution
    }

    /// The child field for the number of periods.
    pub closed spec fn length_field(&self) -> Integer<u32, GreaterThanZero> {
        self.length
    }

    /// The rules for the number of periods, in registration order.
    pub closed spec fn length_rules(&self) -> Seq<RL> {
        self.length_validations.rules()
    }

    /// The rules for the assembled range, in registration order.
    pub closed spec fn range_rules(&self) -> Seq<RR> {
        self.range_validations.rules()
    }

    /// Whether the length field carries its one rule, that the length is
    /// above zero. Every field that `new` or `default` made does, whatever
    /// was done to it since.
    pub open spec fn guards_length(&self) -> bool {
        self.length_field().rules() == seq![GreaterThanZero]
    }

    /// What the field parses to.
    pub open spec fn reading(&self) -> Result<TimeRangeView<R::V>, ErrorView> {
        range_outcome::<R, RL, RR>(
            self.start_field().reading(),
            self.length_field().reading(),
            self.length_rules(),
            self.range_rules(),
        )
    }

    /// A field that shows `data`: `dr_input` set to the start of `data`, and
    /// the length of `data`.
    pub fn new(
        data: calendar::TimeRange<R>,
        dr_input: I,
        length_validations: Validations<u32, RL>,
        range_validations: Validations<calendar::TimeRange<R>, RR>,
    ) -> (r: TimeRange<I, R, RL, RR>)
        requires
            dr_input.can_show(data.first()),
        ensures
            dr_input.shows(data.first(), r.start_field().inner()),
            r.length_field().raw() == written_int(data@.len),
            r.guards_length(),
            r.length_rules() == length_validations.rules(),
            r.range_rules() == range_validations.rules(),
    {
        let len = data.len();
        let mut dr_input = dr_input;
        dr_input.set_value(data.into_start());
        TimeRange {
            date_resolution: DateResolution::new(dr_input),
            length: Integer::new(&len, above_zero()),
            length_validations,
            range_validations,
        }
    }

    pub fn get_length(&self) -> (r: &Integer<u32, GreaterThanZero>)
        ensures
            *r == self.length_field(),
    {
        &self.length
    }

    pub fn get_date_resolution(&self) -> (r: &DateResolution<I, R>)
        ensures
            *r == self.start_field(),
    {
        &self.date_resolution
    }
}

impl<
    I: UserInput<Output = R> + Default,
    R: View,
    RL: Rule<u32>,
    RR: Rule<calendar::TimeRange<R>>,
> Default for TimeRange<I, R, RL, RR> {
    /// A field of length 1 with a default start and without rules of the
    /// caller's.
    fn default() -> (r: TimeRange<I, R, RL, RR>)
        ensures
            call_ensures(I::default, (), r.start_field().inner()),
            r.length_field().raw() == written_int(1),
            r.guards_length(),
            r.length_rules() == Seq::<RL>::empty(),
            r.range_rules() == Seq::<RR>::empty(),
    {
        let one: u32 = 1;
        TimeRange {
            date_resolution: DateResolution::default(),
            length: Integer::new(&one, above_zero()),
            length_validations: Validations::new(),
            range_validations: Validations::new(),
        }
    }
}

impl<
    I: UserInput<Output = R> + Default,
    R: View,
    RL: Rule<u32>,
    RR: Rule<calendar::TimeRange<R>>,
> UserInput for TimeRange<I, R, RL, RR> {
    type Output = calendar::TimeRange<R>;

    type Input = TimeRangeMsg<I>;

    open spec fn outcome(&self) -> Result<TimeRangeView<R::V>, ErrorView> {
        self.reading()
    }

    /// An update reaches the child that the message names and leaves the
    /// other child as it was.
    open spec fn updated(&self, input: TimeRangeMsg<I>, next: Self) -> bool {
        &&& next.length_rules() == self.length_rules()
        &&& next.range_rules() == self.range_rules()
        &&& next.length_field().rules() == self.length_field().rules()
        &&& match input {
            TimeRangeMsg::DateResolution { input } => {
                &&& self.start_field().inner().updated(input, next.start_field().inner())
                &&& next.length_field() == self.length_field()
            },
            TimeRangeMsg::Length(text) => {
                &&& next.length_field().raw() == text@
                &&& next.start_field() == self.start_field()
            },
        }
    }

    /// A range can be shown where its start can.
    open spec fn can_show(&self, data: calendar::TimeRange<R>) -> bool {
        self.start_field().inner().can_show(data.first())
    }

    open spec fn shows(&self, data: calendar::TimeRange<R>, next: Self) -> bool {
        &&& next.length_rules() == self.length_rules()
        &&& next.range_rules() == self.range_rules()
        &&& next.length_field().rules() == self.length_field().rules()
        &&& next.length_field().raw() == written_int(data@.len)
        &&& self.start_field().inner().shows(data.first(), next.start_field().inner())
    }

    fn update(&mut self, input: TimeRangeMsg<I>) {
        match input {
            TimeRangeMsg::DateResolution { input } => self.date_resolution.update(input),
            TimeRangeMsg::Length(text) => self.length.update(text),
        }
    }

    fn parse(&self) -> (r: FieldResult<calendar::TimeRange<R>>) {
        let start = match self.date_resolution.parse() {
            Ok(start) => start,
            Err(error) => {
                return Err(error);
            },
        };
        let len = match self.length.parse() {
            Ok(len) => len,
            Err(error) => {
                return Err(error);
            },
        };
        match self.length_validations.validate(&len) {
            Ok(_) => {},
            Err(errors) => {
                return Err(Error::Validation(errors));
            },
        }
        let range = calendar::TimeRange::new(start, len);
        match self.range_validations.validate(&range) {
            Ok(_) => Ok(range),
            Err(errors) => Err(Error::Validation(errors)),
        }
    }

    fn set_value(&mut self, data: calendar::TimeRange<R>) {
        self.length.set_value(data.len());
        self.date_resolution.set_value(data.into_start());
    }
}

} // verus!
