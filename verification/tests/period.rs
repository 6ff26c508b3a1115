use form_inputs::calendar;
use form_inputs::errors::{IntErrorKind, ParseFailure};
use form_inputs::inputs::{
    Month, MonthMsg, Quarter, QuarterMsg, RelativeMonth, RelativeQuarter, Year,
};
use form_inputs::{Error, Rule, UserInput, ValidationResult, Validations};

struct Accept;

impl Rule<u32> for Accept {
    fn check(&self, _value: &u32) -> ValidationResult {
        Ok(())
    }
}

impl Rule<calendar::Year> for Accept {
    fn check(&self, _value: &calendar::Year) -> ValidationResult {
        Ok(())
    }
}

impl Rule<calendar::Month> for Accept {
    fn check(&self, _value: &calendar::Month) -> ValidationResult {
        Ok(())
    }
}

impl Rule<calendar::Quarter> for Accept {
    fn check(&self, _value: &calendar::Quarter) -> ValidationResult {
        Ok(())
    }
}

struct Odd;

impl Rule<u32> for Odd {
    fn check(&self, value: &u32) -> ValidationResult {
        if value % 2 == 1 {
            Ok(())
        } else {
            Err(format!("{} is even", value))
        }
    }
}

struct After2000;

impl Rule<calendar::Year> for After2000 {
    fn check(&self, value: &calendar::Year) -> ValidationResult {
        if value.year_num() > 2000 {
            Ok(())
        } else {
            Err(format!("{} is not after 2000", value.year_num()))
        }
    }
}

struct NotFebruary;

impl Rule<calendar::Month> for NotFebruary {
    fn check(&self, value: &calendar::Month) -> ValidationResult {
        if value.month_num() == 2 {
            Err("February is closed".to_string())
        } else {
            Ok(())
        }
    }
}

struct NeverMonth;

impl Rule<calendar::Month> for NeverMonth {
    fn check(&self, _value: &calendar::Month) -> ValidationResult {
        panic!("the rules of the whole were asked though a part failed")
    }
}

fn validation_messages<T: std::fmt::Debug>(result: Result<T, Error>) -> Vec<String> {
    match result {
        Err(Error::Validation(errors)) => errors.messages().clone(),
        other => panic!("no validation failure: {:?}", other),
    }
}

fn day(year: i32, month: u32, day: u32) -> calendar::Date {
    calendar::Date::new(year, month, day).unwrap()
}

#[test]
fn year_field_parses_a_year() {
    let mut field: Year<After2000> =
        Year::new(calendar::Year::new(2024), Validations::from_vec(vec![After2000]));
    assert_eq!(field.get_input(), "2024");
    assert_eq!(field.parse().unwrap(), calendar::Year::new(2024));
    field.update("1999".to_string());
    assert_eq!(validation_messages(field.parse()), vec!["1999 is not after 2000"]);
    field.update("-44".to_string());
    assert_eq!(validation_messages(field.parse()), vec!["-44 is not after 2000"]);
    field.update("twenty".to_string());
    assert!(matches!(
        field.parse(),
        Err(Error::Parse(ParseFailure::Integer(IntErrorKind::InvalidDigit)))
    ));
    assert_eq!(field.get_input(), "twenty");
    field.set_value(calendar::Year::new(2031));
    assert_eq!(field.get_input(), "2031");
    assert_eq!(field.parse().unwrap().year_num(), 2031);
}

#[test]
fn year_field_starts_at_the_year_of_a_day() {
    let field: Year<Accept> = Year::starting(&day(2023, 12, 31));
    assert_eq!(field.get_input(), "2023");
    let now: Year<Accept> = Year::default();
    let year = now.parse().unwrap().year_num();
    assert!(year >= 2024);
    assert_eq!(now.get_input(), year.to_string());
}

#[test]
fn relative_month_accepts_one_to_twelve() {
    let mut field: RelativeMonth<Accept> = RelativeMonth::new(1, Validations::new());
    for number in 1..=12u32 {
        field.update(number.to_string());
        assert_eq!(field.parse().unwrap(), number);
    }
}

#[test]
fn relative_month_refuses_zero_and_thirteen() {
    let mut field: RelativeMonth<Accept> = RelativeMonth::new(1, Validations::new());
    field.update("0".to_string());
    assert_eq!(
        validation_messages(field.parse()),
        vec!["Month number should be between 1 and 12 but was 0"]
    );
    field.update("13".to_string());
    assert_eq!(
        validation_messages(field.parse()),
        vec!["Month number should be between 1 and 12 but was 13"]
    );
    assert_eq!(field.get_input(), "13");
    field.update("4294967295".to_string());
    assert_eq!(
        validation_messages(field.parse()),
        vec!["Month number should be between 1 and 12 but was 4294967295"]
    );
    field.update("-1".to_string());
    assert!(matches!(field.parse(), Err(Error::Parse(_))));
}

#[test]
fn relative_month_asks_its_rules_only_within_range() {
    let mut field: RelativeMonth<Odd> = RelativeMonth::new(3, Validations::from_vec(vec![Odd]));
    assert_eq!(field.parse().unwrap(), 3);
    field.update("4".to_string());
    assert_eq!(validation_messages(field.parse()), vec!["4 is even"]);
    field.update("14".to_string());
    assert_eq!(
        validation_messages(field.parse()),
        vec!["Month number should be between 1 and 12 but was 14"]
    );
    field.set_value(11);
    assert_eq!(field.get_input(), "11");
    assert_eq!(field.parse().unwrap(), 11);
}

#[test]
fn relative_month_may_be_made_of_any_number() {
    let field: RelativeMonth<Accept> = RelativeMonth::new(40, Validations::new());
    assert_eq!(field.get_input(), "40");
    assert!(field.parse().is_err());
    let november: RelativeMonth<Accept> = RelativeMonth::starting(&day(2020, 11, 5));
    assert_eq!(november.parse().unwrap(), 11);
    let now: RelativeMonth<Accept> = RelativeMonth::default();
    assert!((1..=12).contains(&now.parse().unwrap()));
}

#[test]
fn relative_quarter_accepts_one_to_four() {
    let mut field: RelativeQuarter<Accept> = RelativeQuarter::new(1, Validations::new());
    for number in 1..=4u32 {
        field.update(number.to_string());
        assert_eq!(field.parse().unwrap(), number);
    }
    field.update("0".to_string());
    assert_eq!(
        validation_messages(field.parse()),
        vec!["Quarter number should be between 1 and 4 but was 0"]
    );
    field.update("5".to_string());
    assert_eq!(
        validation_messages(field.parse()),
        vec!["Quarter number should be between 1 and 4 but was 5"]
    );
    field.update("q1".to_string());
    assert!(matches!(field.parse(), Err(Error::Parse(_))));
    assert_eq!(field.get_input(), "q1");
}

#[test]
fn relative_quarter_starts_at_the_quarter_of_a_day() {
    let quarters = [1, 1, 1, 2, 2, 2, 3, 3, 3, 4, 4, 4];
    for month in 1..=12u32 {
        let field: RelativeQuarter<Accept> = RelativeQuarter::starting(&day(2021, month, 1));
        assert_eq!(field.parse().unwrap(), quarters[(month - 1) as usize]);
    }
    let now: RelativeQuarter<Accept> = RelativeQuarter::default();
    assert!((1..=4).contains(&now.parse().unwrap()));
}

fn month_field(year: &str, month: &str) -> Month<Accept, Accept, NotFebruary> {
    let mut field = Month::new(
        calendar::Month::new(2000, 1).unwrap(),
        Validations::new(),
        Validations::new(),
        Validations::from_vec(vec![NotFebruary]),
    );
    field.update(MonthMsg::Year(year.to_string()));
    field.update(MonthMsg::Month(month.to_string()));
    field
}

#[test]
fn month_field_assembles_year_and_month() {
    let mut field: Month<Accept, Accept, Accept> = Month::new(
        calendar::Month::new(2000, 1).unwrap(),
        Validations::new(),
        Validations::new(),
        Validations::new(),
    );
    assert_eq!(field.get_year().get_input(), "2000");
    assert_eq!(field.get_month().get_input(), "1");
    field.update(MonthMsg::Year("2024".to_string()));
    assert_eq!(field.get_year().get_input(), "2024");
    assert_eq!(field.get_month().get_input(), "1");
    field.update(MonthMsg::Month("2".to_string()));
    assert_eq!(field.get_year().get_input(), "2024");
    assert_eq!(field.get_month().get_input(), "2");
    let february = field.parse().unwrap();
    assert_eq!(february, calendar::Month::new(2024, 2).unwrap());
    assert_eq!(february.year().year_num(), 2024);
    assert_eq!(february.month_num(), 2);
}

#[test]
fn month_field_fails_with_the_error_of_the_year_first() {
    let with_good_month = month_field("next", "2");
    let with_bad_month = month_field("next", "14");
    let with_unreadable_month = month_field("next", "soon");
    let year_alone: Year<Accept> = {
        let mut year = Year::new(calendar::Year::new(1), Validations::new());
        year.update("next".to_string());
        year
    };
    let expected = year_alone.parse().unwrap_err().to_string();
    assert_eq!(with_good_month.parse().unwrap_err().to_string(), expected);
    assert_eq!(with_bad_month.parse().unwrap_err().to_string(), expected);
    assert_eq!(with_unreadable_month.parse().unwrap_err().to_string(), expected);
    assert!(matches!(with_bad_month.parse(), Err(Error::Parse(_))));
}

#[test]
fn month_field_fails_with_the_error_of_the_month_next() {
    let field = month_field("2024", "13");
    assert_eq!(
        validation_messages(field.parse()),
        vec!["Month number should be between 1 and 12 but was 13"]
    );
    let field = month_field("2024", "");
    assert!(matches!(
        field.parse(),
        Err(Error::Parse(ParseFailure::Integer(IntErrorKind::Empty)))
    ));
}

#[test]
fn month_field_asks_its_own_rules_last() {
    assert_eq!(validation_messages(month_field("2024", "2").parse()), vec!["February is closed"]);
    assert_eq!(
        month_field("2024", "3").parse().unwrap(),
        calendar::Month::new(2024, 3).unwrap()
    );
    let mut guarded: Month<Accept, Accept, NeverMonth> = Month::new(
        calendar::Month::new(2000, 1).unwrap(),
        Validations::new(),
        Validations::new(),
        Validations::from_vec(vec![NeverMonth]),
    );
    guarded.update(MonthMsg::Month("0".to_string()));
    assert!(guarded.parse().is_err());
    guarded.update(MonthMsg::Year("y".to_string()));
    assert!(guarded.parse().is_err());
}

#[test]
fn month_field_child_rules_run_in_the_child() {
    let mut field: Month<After2000, Odd, Accept> = Month::new(
        calendar::Month::new(2024, 3).unwrap(),
        Validations::from_vec(vec![After2000]),
        Validations::from_vec(vec![Odd]),
        Validations::new(),
    );
    assert_eq!(field.parse().unwrap(), calendar::Month::new(2024, 3).unwrap());
    field.update(MonthMsg::Month("4".to_string()));
    assert_eq!(validation_messages(field.parse()), vec!["4 is even"]);
    field.update(MonthMsg::Year("1999".to_string()));
    assert_eq!(validation_messages(field.parse()), vec!["1999 is not after 2000"]);
}

#[test]
fn month_field_set_value_round_trips() {
    let mut field: Month<Accept, Accept, Accept> = Month::starting(&day(2019, 7, 14));
    assert_eq!(field.parse().unwrap(), calendar::Month::new(2019, 7).unwrap());
    for (year, month) in [(2024, 2), (-5, 12), (i32::MAX, 1), (i32::MIN, 6)] {
        let value = calendar::Month::new(year, month).unwrap();
        field.set_value(value);
        assert_eq!(field.parse().unwrap(), value);
    }
    let now: Month<Accept, Accept, Accept> = Month::default();
    assert!(now.parse().is_ok());
}

#[test]
fn quarter_field_assembles_year_and_quarter() {
    let mut field: Quarter<Accept, Accept, Accept> = Quarter::new(
        calendar::Quarter::new(2020, 4).unwrap(),
        Validations::new(),
        Validations::new(),
        Validations::new(),
    );
    assert_eq!(field.get_year().get_input(), "2020");
    assert_eq!(field.get_quarter().get_input(), "4");
    let fourth = field.parse().unwrap();
    assert_eq!(fourth.year().year_num(), 2020);
    assert_eq!(fourth.quarter_num(), 4);
    assert_eq!(fourth.first_month(), 10);
    field.update(QuarterMsg::Quarter("3".to_string()));
    assert_eq!(field.parse().unwrap().first_month(), 7);
    field.update(QuarterMsg::Quarter("2".to_string()));
    assert_eq!(field.parse().unwrap().first_month(), 4);
    field.update(QuarterMsg::Quarter("1".to_string()));
    assert_eq!(field.parse().unwrap().first_month(), 1);
    field.update(QuarterMsg::Quarter("5".to_string()));
    assert_eq!(
        validation_messages(field.parse()),
        vec!["Quarter number should be between 1 and 4 but was 5"]
    );
    field.update(QuarterMsg::Year("".to_string()));
    assert!(matches!(
        field.parse(),
        Err(Error::Parse(ParseFailure::Integer(IntErrorKind::Empty)))
    ));
    assert_eq!(field.get_quarter().get_input(), "5");
    field.set_value(calendar::Quarter::new(1987, 2).unwrap());
    assert_eq!(field.parse().unwrap(), calendar::Quarter::new(1987, 2).unwrap());
    let started: Quarter<Accept, Accept, Accept> = Quarter::starting(&day(2022, 8, 1));
    assert_eq!(started.parse().unwrap(), calendar::Quarter::new(2022, 3).unwrap());
    let now: Quarter<Accept, Accept, Accept> = Quarter::default();
    assert!(now.parse().is_ok());
}

#[test]
fn calendar_values_refuse_what_is_no_period() {
    assert!(calendar::Month::new(2024, 0).is_none());
    assert!(calendar::Month::new(2024, 13).is_none());
    assert!(calendar::Quarter::new(2024, 0).is_none());
    assert!(calendar::Quarter::new(2024, 5).is_none());
    assert_eq!(calendar::Month::from_date(&day(2024, 2, 29)), calendar::Month::new(2024, 2).unwrap());
    assert_eq!(
        calendar::Quarter::from_date(&day(2024, 12, 31)),
        calendar::Quarter::new(2024, 4).unwrap()
    );
    assert_eq!(calendar::Year::from_date(&day(-1, 1, 1)).year_num(), -1);
}
