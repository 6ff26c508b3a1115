//! What holds of every field, stated over the fields' outcomes.

use crate::calendar;
use crate::calendar::{MonthView, QuarterView, TimeRangeView};
use crate::errors::{ErrorView, FieldResult, ParseFailureView};
use crate::field::{outcome_view, UserInput};
use crate::inputs::date::Date;
use crate::inputs::period::{
    month_range_message, quarter_range_message, Month, Quarter, RelativeMonth, RelativeQuarter,
    Year,
};
use crate::inputs::range::TimeRange;
use crate::inputs::scalar::Scalar;
use crate::inputs::select::{RelationalSelect, Select};
use crate::order::Ordered;
use crate::rules::{judged, rejections, GreaterThanZero, Rule};
use crate::text::{lemma_int_round_trip, lemma_read_bounds, read_number, ReadsBack, TextValue};
use vstd::prelude::*;

verus! {

/// Parsing is idempotent: two parses of a field that was not changed in
/// between give the same value or the same error.
pub proof fn lemma_parse_is_idempotent<F: UserInput>(
    field: F,
    first: FieldResult<F::Output>,
    second: FieldResult<F::Output>,
)
    requires
        outcome_view(first) == field.outcome(),
        outcome_view(second) == field.outcome(),
    ensures
        outcome_view(first) == outcome_view(second),
{
}

/// A parse gives a value, a parse failure, or a validation failure with at
/// least one message, and a validation failure only for a text that reads as
/// a value: the two kinds of error never come from one text together.
pub proof fn lemma_scalar_error_kinds<O: TextValue, R: Rule<O>>(field: Scalar<O, R>)
    ensures
        O::read(field.raw()) is Err <==> field.outcome() matches Err(ErrorView::Parse(_)),
        field.outcome() matches Err(ErrorView::Validation(messages)) ==> messages.len() > 0,
{
}

/// A scalar field that was updated with a text that reads as a value parses
/// to that value, unless a rule rejects it: then it gives every rejection.
pub proof fn lemma_scalar_update_then_parse<O: TextValue, R: Rule<O>>(
    before: Scalar<O, R>,
    input: String,
    after: Scalar<O, R>,
    value: O::V,
)
    requires
        before.updated(input, after),
        O::read(input@) == Ok::<O::V, ParseFailureView>(value),
    ensures
        after.outcome() == judged::<O, R>(before.rules(), value),
        rejections(before.rules(), value).len() == 0 ==> after.outcome() == Ok::<
            O::V,
            ErrorView,
        >(value),
{
}

/// A scalar field that was updated with a text that does not read as a value
/// gives the parse failure of that text, whatever its rules are.
pub proof fn lemma_scalar_update_then_fail<O: TextValue, R: Rule<O>>(
    before: Scalar<O, R>,
    input: String,
    after: Scalar<O, R>,
    cause: ParseFailureView,
)
    requires
        before.updated(input, after),
        O::read(input@) == Err::<O::V, ParseFailureView>(cause),
    ensures
        after.outcome() == Err::<O::V, ErrorView>(ErrorView::Parse(cause)),
{
}

/// A scalar field that was set to a value parses back to that value, for
/// every value that the field's rules accept.
pub proof fn lemma_scalar_round_trip<O: ReadsBack, R: Rule<O>>(
    before: Scalar<O, R>,
    data: O,
    after: Scalar<O, R>,
)
    requires
        before.shows(data, after),
        rejections(before.rules(), data@).len() == 0,
    ensures
        after.outcome() == Ok::<O::V, ErrorView>(data@),
{
    O::lemma_reads_back(data@);
}

/// A year field that was set to a year parses back to that year, for every
/// year that the field's rules accept.
pub proof fn lemma_year_round_trip<R: Rule<calendar::Year>>(
    before: Year<R>,
    data: calendar::Year,
    after: Year<R>,
)
    requires
        before.shows(data, after),
        i32::MIN <= data@ <= i32::MAX,
        rejections(before.rules(), data@).len() == 0,
    ensures
        after.outcome() == Ok::<int, ErrorView>(data@),
{
    lemma_int_round_trip(data@, true, i32::MIN as int, i32::MAX as int);
}

/// A month-number field that holds the canonical text of a number parses to
/// that number where it lies within 1 to 12, unless a rule rejects it; any
/// other number is refused with the one message that names it.
pub proof fn lemma_relative_month_of_number<R: Rule<u32>>(field: RelativeMonth<R>, number: u32)
    requires
        field.raw() == crate::text::written_int(number as int),
    ensures
        1 <= number <= 12 ==> field.outcome() == judged::<u32, R>(field.rules(), number),
        !(1 <= number <= 12) ==> field.outcome() == Err::<u32, ErrorView>(
            ErrorView::Validation(seq![month_range_message(number as int)]),
        ),
{
    lemma_int_round_trip(number as int, false, 0, u32::MAX as int);
}

/// A quarter-number field that holds the canonical text of a number parses
/// to that number where it lies within 1 to 4, unless a rule rejects it; any
/// other number is refused with the one message that names it.
pub proof fn lemma_relative_quarter_of_number<R: Rule<u32>>(
    field: RelativeQuarter<R>,
    number: u32,
)
    requires
        field.raw() == crate::text::written_int(number as int),
    ensures
        1 <= number <= 4 ==> field.outcome() == judged::<u32, R>(field.rules(), number),
        !(1 <= number <= 4) ==> field.outcome() == Err::<u32, ErrorView>(
            ErrorView::Validation(seq![quarter_range_message(number as int)]),
        ),
{
    lemma_int_round_trip(number as int, false, 0, u32::MAX as int);
}

/// A month-number field never parses to a number outside 1 to 12.
pub proof fn lemma_relative_month_range<R: Rule<u32>>(field: RelativeMonth<R>)
    ensures
        field.outcome() matches Ok(number) ==> 1 <= number <= 12,
{
    lemma_read_bounds(field.raw(), false, 0, u32::MAX as int);
}

/// A select field parses to a value only where that value is among its
/// options, and a value among the options that the field was set to parses
/// back.
pub proof fn lemma_select_round_trip<O: ReadsBack + Ordered>(before: Select<O>, data: O, after: Select<O>)
    requires
        before.shows(data, after),
    ensures
        after.outcome() matches Ok(value) ==> after.options().contains(value),
        before.options().contains(data@) ==> after.outcome() == Ok::<O::V, ErrorView>(data@),
        !before.options().contains(data@) ==> after.outcome() == Err::<O::V, ErrorView>(
            ErrorView::Parse(ParseFailureView::Select(O::written(data@))),
        ),
{
    O::lemma_reads_back(data@);
}

/// A relational select parses to a key only where that key is in its
/// mapping, and refuses every other key by the text that was typed.
pub proof fn lemma_relational_select_membership<K: Ordered, V>(
    field: RelationalSelect<K, V>,
    key: K::V,
)
    requires
        K::read(field.raw()) == Ok::<K::V, ParseFailureView>(key),
    ensures
        field.keys().contains(key) ==> field.outcome() == Ok::<K::V, ErrorView>(key),
        !field.keys().contains(key) ==> field.outcome() == Err::<K::V, ErrorView>(
            ErrorView::Parse(ParseFailureView::Select(field.raw())),
        ),
{
}

/// Where the year of a month field fails, the field fails with exactly the
/// year's error, whatever the text of the month is.
pub proof fn lemma_month_year_fails_first<
    RY: Rule<calendar::Year>,
    RN: Rule<u32>,
    R: Rule<calendar::Month>,
>(field: Month<RY, RN, R>, error: ErrorView)
    requires
        field.year_field().outcome() == Err::<int, ErrorView>(error),
    ensures
        field.outcome() == Err::<MonthView, ErrorView>(error),
{
}

/// Where the year of a month field parses and the month fails, the field
/// fails with exactly the month's error, and the rules for the assembled
/// month are not asked.
pub proof fn lemma_month_month_fails_next<
    RY: Rule<calendar::Year>,
    RN: Rule<u32>,
    R: Rule<calendar::Month>,
>(field: Month<RY, RN, R>, year: int, error: ErrorView)
    requires
        field.year_field().outcome() == Ok::<int, ErrorView>(year),
        field.month_field().outcome() == Err::<u32, ErrorView>(error),
    ensures
        field.outcome() == Err::<MonthView, ErrorView>(error),
{
}

/// Where both children of a month field parse, the field gives the month of
/// that year, once its own rules were asked about it.
pub proof fn lemma_month_assembles<
    RY: Rule<calendar::Year>,
    RN: Rule<u32>,
    R: Rule<calendar::Month>,
>(field: Month<RY, RN, R>, year: int, month: u32)
    requires
        field.year_field().outcome() == Ok::<int, ErrorView>(year),
        field.month_field().outcome() == Ok::<u32, ErrorView>(month),
    ensures
        1 <= month <= 12,
        field.outcome() == judged::<calendar::Month, R>(
            field.rules(),
            MonthView { year, month: month as int },
        ),
{
    lemma_relative_month_range(field.month_field());
}

/// A month field that was set to a month parses back to that month, where
/// the rules of both children and of the field accept it.
pub proof fn lemma_month_round_trip<
    RY: Rule<calendar::Year>,
    RN: Rule<u32>,
    R: Rule<calendar::Month>,
>(before: Month<RY, RN, R>, data: calendar::Month, after: Month<RY, RN, R>)
    requires
        before.shows(data, after),
        i32::MIN <= data@.year <= i32::MAX,
        1 <= data@.month <= 12,
        rejections(before.year_field().rules(), data@.year).len() == 0,
        rejections(before.month_field().rules(), data@.month as u32).len() == 0,
        rejections(before.rules(), data@).len() == 0,
    ensures
        after.outcome() == Ok::<MonthView, ErrorView>(data@),
{
    lemma_int_round_trip(data@.year, true, i32::MIN as int, i32::MAX as int);
    lemma_int_round_trip(data@.month, false, 0, u32::MAX as int);
}

/// Where the year of a quarter field fails, the field fails with exactly the
/// year's error, whatever the text of the quarter is.
pub proof fn lemma_quarter_year_fails_first<
    RY: Rule<calendar::Year>,
    RN: Rule<u32>,
    R: Rule<calendar::Quarter>,
>(field: Quarter<RY, RN, R>, error: ErrorView)
    requires
        field.year_field().outcome() == Err::<int, ErrorView>(error),
    ensures
        field.outcome() == Err::<QuarterView, ErrorView>(error),
{
}

/// A quarter field that was set to a quarter parses back to that quarter,
/// where the rules of both children and of the field accept it.
pub proof fn lemma_quarter_round_trip<
    RY: Rule<calendar::Year>,
    RN: Rule<u32>,
    R: Rule<calendar::Quarter>,
>(before: Quarter<RY, RN, R>, data: calendar::Quarter, after: Quarter<RY, RN, R>)
    requires
        before.shows(data, after),
        i32::MIN <= data@.year <= i32::MAX,
        1 <= data@.quarter <= 4,
        rejections(before.year_field().rules(), data@.year).len() == 0,
        rejections(before.quarter_field().rules(), data@.quarter as u32).len() == 0,
        rejections(before.rules(), data@).len() == 0,
    ensures
        after.outcome() == Ok::<QuarterView, ErrorView>(data@),
{
    lemma_int_round_trip(data@.year, true, i32::MIN as int, i32::MAX as int);
    lemma_int_round_trip(data@.quarter, false, 0, u32::MAX as int);
}

/// A date field that was updated with a text parses to what the text reads
/// as in the field's format, once the rules were asked about it; a text that
/// does not read gives the parse failure with the message of the refusal.
pub proof fn lemma_date_update_then_parse<R: Rule<calendar::Date>>(
    before: Date<R>,
    input: String,
    after: Date<R>,
)
    ensures
        before.updated(input, after) ==> after.outcome() == crate::inputs::date::date_outcome(
            input@,
            before.format(),
            before.rules(),
        ),
{
}

/// Where the start of a range field fails, the field fails with exactly the
/// start's error, whatever the text of the length is.
pub proof fn lemma_range_start_fails_first<
    I: UserInput<Output = S> + Default,
    S: View,
    RL: Rule<u32>,
    RR: Rule<calendar::TimeRange<S>>,
>(field: TimeRange<I, S, RL, RR>, error: ErrorView)
    requires
        field.start_field().outcome() == Err::<S::V, ErrorView>(error),
    ensures
        field.outcome() == Err::<TimeRangeView<S::V>, ErrorView>(error),
{
}

/// A range field whose start parses and whose length reads as zero fails
/// with the one message that the length must be above zero: the rules of the
/// caller for the length and for the range are not asked.
pub proof fn lemma_range_refuses_zero<
    I: UserInput<Output = S> + Default,
    S: View,
    RL: Rule<u32>,
    RR: Rule<calendar::TimeRange<S>>,
>(field: TimeRange<I, S, RL, RR>, start: S::V)
    requires
        field.guards_length(),
        field.start_field().outcome() == Ok::<S::V, ErrorView>(start),
        read_number(field.length_field().raw(), false, 0, u32::MAX as int) == Ok::<
            int,
            ParseFailureView,
        >(0),
    ensures
        field.outcome() == Err::<TimeRangeView<S::V>, ErrorView>(
            ErrorView::Validation(seq!["Input must be greater than zero"@]),
        ),
{
    let rules = seq![GreaterThanZero];
    reveal_with_fuel(rejections, 2);
    assert(rejections::<u32, GreaterThanZero>(rules, 0u32) == seq![
        "Input must be greater than zero"@,
    ]);
}

/// A range field whose start parses and whose length reads as a number above
/// zero gives the range of that start and that length, once the rules for
/// the length and for the range were asked.
pub proof fn lemma_range_assembles<
    I: UserInput<Output = S> + Default,
    S: View,
    RL: Rule<u32>,
    RR: Rule<calendar::TimeRange<S>>,
>(field: TimeRange<I, S, RL, RR>, start: S::V, len: u32)
    requires
        field.guards_length(),
        field.start_field().outcome() == Ok::<S::V, ErrorView>(start),
        read_number(field.length_field().raw(), false, 0, u32::MAX as int) == Ok::<
            int,
            ParseFailureView,
        >(len as int),
        len > 0,
    ensures
        rejections(field.length_rules(), len).len() == 0 ==> field.outcome() == judged::<
            calendar::TimeRange<S>,
            RR,
        >(field.range_rules(), TimeRangeView { start, len: len as int }),
        rejections(field.length_rules(), len).len() > 0 ==> field.outcome() == Err::<
            TimeRangeView<S::V>,
            ErrorView,
        >(ErrorView::Validation(rejections(field.length_rules(), len))),
{
    reveal_with_fuel(rejections, 2);
}

/// A year field that was updated with a text parses to the year that the
/// text reads as, once the rules were asked about it; a text that reads as
/// no whole number gives the parse failure of that text.
pub proof fn lemma_year_update_then_parse<R: Rule<calendar::Year>>(
    before: Year<R>,
    input: String,
    after: Year<R>,
)
    requires
        before.updated(input, after),
    ensures
        after.outcome() == match read_number(input@, true, i32::MIN as int, i32::MAX as int) {
            Ok(year) => judged::<calendar::Year, R>(before.rules(), year),
            Err(cause) => Err(ErrorView::Parse(cause)),
        },
{
}

/// A select field that was updated with a text parses to the value that the
/// text reads as, where that value is among the options; it refuses every
/// other value by the text that was typed, and a text that does not read by
/// its parse failure.
pub proof fn lemma_select_update_then_parse<O: Ordered>(
    before: Select<O>,
    input: String,
    after: Select<O>,
)
    requires
        before.updated(input, after),
    ensures
        after.outcome() == match O::read(input@) {
            Ok(value) => if before.options().contains(value) {
                Ok(value)
            } else {
                Err(ErrorView::Parse(ParseFailureView::Select(input@)))
            },
            Err(cause) => Err(ErrorView::Parse(cause)),
        },
{
}

/// A date field that was set to a date parses back to that date, for every
/// date that the field's rules accept and that the field's format keeps: a
/// format that leaves out a part of the date does not give it back.
pub proof fn lemma_date_round_trip<R: Rule<calendar::Date>>(
    before: Date<R>,
    data: calendar::Date,
    after: Date<R>,
)
    requires
        before.can_show(data),
        before.shows(data, after),
        calendar::date_read(after.raw(), before.format()) == Ok::<(int, int, int), Seq<char>>(
            (data@.year, data@.month, data@.day),
        ),
        rejections(before.rules(), data@).len() == 0,
    ensures
        after.outcome() == Ok::<calendar::DateView, ErrorView>(data@),
{
}

/// A range field that was set to a range parses back to that range, for
/// every range of a length above zero whose start the start field gives
/// back and that the rules for the length and for the range accept.
pub proof fn lemma_range_round_trip<
    I: UserInput<Output = S> + Default,
    S: View,
    RL: Rule<u32>,
    RR: Rule<calendar::TimeRange<S>>,
>(before: TimeRange<I, S, RL, RR>, data: calendar::TimeRange<S>, after: TimeRange<I, S, RL, RR>)
    requires
        before.guards_length(),
        before.shows(data, after),
        0 < data@.len <= u32::MAX,
        after.start_field().outcome() == Ok::<S::V, ErrorView>(data@.start),
        rejections(before.length_rules(), data@.len as u32).len() == 0,
        rejections(before.range_rules(), data@).len() == 0,
    ensures
        after.outcome() == Ok::<TimeRangeView<S::V>, ErrorView>(data@),
{
    lemma_int_round_trip(data@.len, false, 0, u32::MAX as int);
    lemma_range_assembles(after, data@.start, data@.len as u32);
}

} // verus!
