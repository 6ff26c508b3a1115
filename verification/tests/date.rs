use form_inputs::calendar;
use form_inputs::errors::ParseFailure;
use form_inputs::inputs::{Date, NaiveDate};
use form_inputs::{Error, Rule, UserInput, ValidationResult, Validations};

struct Accept;

impl Rule<calendar::Date> for Accept {
    fn check(&self, _value: &calendar::Date) -> ValidationResult {
        Ok(())
    }
}

struct Weekday;

impl Rule<calendar::Date> for Weekday {
    fn check(&self, value: &calendar::Date) -> ValidationResult {
        let date =
            chrono::NaiveDate::from_ymd_opt(value.year(), value.month(), value.day()).unwrap();
        match chrono::Datelike::weekday(&date) {
            chrono::Weekday::Sat | chrono::Weekday::Sun => Err("Closed at weekends".to_string()),
            _ => Ok(()),
        }
    }
}

fn day(year: i32, month: u32, day: u32) -> calendar::Date {
    calendar::Date::new(year, month, day).unwrap()
}

#[test]
fn dates_are_days_of_the_calendar() {
    assert!(calendar::Date::new(2024, 2, 29).is_some());
    assert!(calendar::Date::new(2023, 2, 29).is_none());
    assert!(calendar::Date::new(1900, 2, 29).is_none());
    assert!(calendar::Date::new(2000, 2, 29).is_some());
    assert!(calendar::Date::new(-4, 2, 29).is_some());
    assert!(calendar::Date::new(2023, 4, 31).is_none());
    assert!(calendar::Date::new(2023, 4, 30).is_some());
    assert!(calendar::Date::new(2015, 0, 14).is_none());
    assert!(calendar::Date::new(2015, 13, 14).is_none());
    assert!(calendar::Date::new(2015, 3, 0).is_none());
    assert!(calendar::Date::new(2015, 12, 31).is_some());
    assert!(calendar::Date::new(2015, 12, 32).is_none());
    assert!(calendar::Date::new(calendar::MAX_YEAR, 12, 31).is_some());
    assert!(calendar::Date::new(calendar::MAX_YEAR + 1, 1, 1).is_none());
    assert!(calendar::Date::new(calendar::MIN_YEAR, 1, 1).is_some());
    assert!(calendar::Date::new(calendar::MIN_YEAR - 1, 12, 31).is_none());
    let date = day(2015, 9, 5);
    assert_eq!((date.year(), date.month(), date.day()), (2015, 9, 5));
}

#[test]
fn the_bounds_of_years_are_those_of_chrono() {
    assert_eq!(chrono::Datelike::year(&chrono::NaiveDate::MIN), calendar::MIN_YEAR);
    assert_eq!(chrono::Datelike::year(&chrono::NaiveDate::MAX), calendar::MAX_YEAR);
}

#[test]
fn dates_parse_and_format_as_chrono_does() {
    assert_eq!(calendar::Date::parse("2015-09-05", "%Y-%m-%d"), Ok(day(2015, 9, 5)));
    assert_eq!(calendar::Date::parse("5sep2015", "%d%b%Y"), Ok(day(2015, 9, 5)));
    assert_eq!(
        calendar::Date::parse("2015/9/31", "%Y/%m/%d"),
        Err(chrono::NaiveDate::parse_from_str("2015/9/31", "%Y/%m/%d").unwrap_err().to_string())
    );
    assert_eq!(
        calendar::Date::parse("2015/9", "%Y/%m"),
        Err("input is not enough for unique date and time".to_string())
    );
    assert_eq!(day(2015, 9, 5).format("%Y-%m-%d"), Some("2015-09-05".to_string()));
    assert_eq!(
        day(2015, 9, 5).format("%A, %-d %B, %C%y"),
        Some("Saturday, 5 September, 2015".to_string())
    );
    assert_eq!(day(2015, 9, 5).format("%Q"), None);
    assert_eq!(day(2015, 9, 5).format("%H:%M"), None);
}

#[test]
fn today_is_a_day_of_the_calendar() {
    let today = calendar::Date::today();
    assert_eq!(calendar::Date::new(today.year(), today.month(), today.day()), Some(today));
    assert!(today.year() >= 2024);
}

#[test]
fn date_field_parses_in_its_format() {
    let mut field: Date<Accept> = Date::new(day(2021, 3, 4), "%d.%m.%Y", Validations::new());
    assert_eq!(field.get_input(), "04.03.2021");
    assert_eq!(field.parse().unwrap(), day(2021, 3, 4));
    field.update("29.02.2024".to_string());
    assert_eq!(field.parse().unwrap(), day(2024, 2, 29));
}

#[test]
fn date_field_fails_with_the_message_of_chrono() {
    let mut field: Date<Accept> = Date::new(day(2021, 3, 4), "%d.%m.%Y", Validations::new());
    field.update("29.02.2023".to_string());
    match field.parse() {
        Err(Error::Parse(ParseFailure::Date(message))) => {
            assert_eq!(message, "input is out of range")
        }
        other => panic!("{:?}", other),
    }
    assert_eq!(field.get_input(), "29.02.2023");
    field.update("2023-02-28".to_string());
    assert_eq!(field.parse().unwrap_err().to_string(), "parse error input contains invalid characters");
    field.update("".to_string());
    assert_eq!(field.parse().unwrap_err().to_string(), "parse error premature end of input");
    assert_eq!(field.parse().unwrap_err().to_string(), field.parse().unwrap_err().to_string());
}

#[test]
fn date_field_asks_its_rules_after_parsing() {
    let mut field: NaiveDate<Weekday> =
        Date::new(day(2024, 10, 28), "%Y-%m-%d", Validations::from_vec(vec![Weekday, Weekday]));
    assert_eq!(field.parse().unwrap(), day(2024, 10, 28));
    field.update("2024-10-27".to_string());
    match field.parse() {
        Err(Error::Validation(errors)) => {
            assert_eq!(errors.messages(), &vec!["Closed at weekends", "Closed at weekends"])
        }
        other => panic!("{:?}", other),
    }
}

#[test]
fn date_field_set_value_round_trips_in_a_full_format() {
    let mut field: Date<Accept> = Date::new(day(2021, 3, 4), "%Y-%m-%d", Validations::new());
    for date in [day(1, 1, 1), day(1999, 12, 31), day(2024, 2, 29), day(9999, 12, 31)] {
        field.set_value(date);
        assert_eq!(field.parse().unwrap(), date);
    }
    assert!(field.try_set_value(day(2000, 1, 2)));
    assert_eq!(field.get_input(), "2000-01-02");
}

#[test]
fn date_field_loses_what_its_format_leaves_out() {
    let mut field: Date<Accept> = Date::new(day(2021, 3, 4), "%Y-%m", Validations::new());
    assert_eq!(field.get_input(), "2021-03");
    assert_eq!(
        field.parse().unwrap_err().to_string(),
        "parse error input is not enough for unique date and time"
    );
    field.set_value(day(2022, 11, 30));
    assert_eq!(field.get_input(), "2022-11");
}

#[test]
fn date_field_is_not_made_with_a_format_that_does_not_apply() {
    assert!(Date::<Accept>::try_new(day(2021, 3, 4), "%Y-%m-%d", Validations::new()).is_some());
    assert!(Date::<Accept>::try_new(day(2021, 3, 4), "%Y %H", Validations::new()).is_none());
    assert!(Date::<Accept>::try_new(day(2021, 3, 4), "%Q", Validations::new()).is_none());
}

#[test]
fn date_field_starts_at_a_day() {
    let field: Date<Accept> = Date::starting(day(2020, 2, 3));
    assert_eq!(field.get_input(), "2020-02-03");
    assert_eq!(field.parse().unwrap(), day(2020, 2, 3));
    let now: Date<Accept> = Date::default();
    assert_eq!(now.parse().unwrap().year().to_string(), &now.get_input()[..4]);
}
