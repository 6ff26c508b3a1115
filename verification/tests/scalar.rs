use form_inputs::decimal::Decimal as DecimalValue;
use form_inputs::errors::{IntErrorKind, ParseFailure};
use form_inputs::inputs::{Decimal, Integer, Scalar, Text};
use form_inputs::rules::GreaterThanZero;
use form_inputs::{Error, Rule, UserInput, ValidationResult, Validations};

struct AtMost(u32);

impl Rule<u32> for AtMost {
    fn check(&self, value: &u32) -> ValidationResult {
        if *value <= self.0 {
            Ok(())
        } else {
            Err(format!("{} is above {}", value, self.0))
        }
    }
}

struct NotEmpty;

impl Rule<String> for NotEmpty {
    fn check(&self, value: &String) -> ValidationResult {
        if value.is_empty() {
            Err("Input must not be empty".to_string())
        } else {
            Ok(())
        }
    }
}

struct Whole;

impl Rule<DecimalValue> for Whole {
    fn check(&self, value: &DecimalValue) -> ValidationResult {
        if value.scale() == 0 {
            Ok(())
        } else {
            Err("Input must be whole".to_string())
        }
    }
}

fn validation_messages<T: std::fmt::Debug>(result: Result<T, Error>) -> Vec<String> {
    match result {
        Err(Error::Validation(errors)) => errors.messages().clone(),
        other => panic!("no validation failure: {:?}", other),
    }
}

#[test]
fn integer_field_parses_valid_text() {
    let mut field: Integer<u32, AtMost> = Scalar::new(&5, Validations::from_vec(vec![AtMost(100)]));
    assert_eq!(field.get_input(), "5");
    assert_eq!(field.parse().unwrap(), 5);
    field.update("42".to_string());
    assert_eq!(field.get_input(), "42");
    assert_eq!(field.parse().unwrap(), 42);
    field.update("+7".to_string());
    assert_eq!(field.parse().unwrap(), 7);
}

#[test]
fn integer_field_keeps_text_that_fails() {
    let mut field: Integer<u32, AtMost> = Scalar::new(&5, Validations::from_vec(vec![AtMost(100)]));
    field.update("4x2".to_string());
    match field.parse() {
        Err(Error::Parse(ParseFailure::Integer(kind))) => {
            assert_eq!(kind, IntErrorKind::InvalidDigit)
        }
        other => panic!("{:?}", other),
    }
    assert_eq!(field.get_input(), "4x2");
    field.update("".to_string());
    assert_eq!(
        field.parse().unwrap_err().to_string(),
        "parse error cannot parse integer from empty string"
    );
    assert_eq!(field.get_input(), "");
}

#[test]
fn integer_field_runs_every_rule_after_parsing() {
    let mut field: Integer<u32, AtMost> =
        Scalar::new(&5, Validations::from_vec(vec![AtMost(10), AtMost(100), AtMost(20)]));
    field.update("50".to_string());
    assert_eq!(validation_messages(field.parse()), vec!["50 is above 10", "50 is above 20"]);
    assert_eq!(field.get_input(), "50");
    field.update("500".to_string());
    assert_eq!(
        field.parse().unwrap_err().to_string(),
        "validation error(s) [500 is above 10, 500 is above 100, 500 is above 20]"
    );
}

#[test]
fn parsing_twice_gives_the_same() {
    let mut field: Integer<i64, GreaterThanZeroI64> = Scalar::new(&-3, Validations::new());
    assert_eq!(field.parse().unwrap(), field.parse().unwrap());
    field.update("nothing".to_string());
    assert_eq!(field.parse().unwrap_err().to_string(), field.parse().unwrap_err().to_string());
    assert_eq!(field.get_input(), "nothing");
}

struct GreaterThanZeroI64;

impl Rule<i64> for GreaterThanZeroI64 {
    fn check(&self, value: &i64) -> ValidationResult {
        if *value > 0 {
            Ok(())
        } else {
            Err("Input must be greater than zero".to_string())
        }
    }
}

#[test]
fn set_value_then_parse_gives_the_value_back() {
    let mut field: Integer<i32, NoRuleI32> = Scalar::default();
    assert_eq!(field.get_input(), "0");
    for value in [i32::MIN, -12, 0, 7, 2024, i32::MAX] {
        field.set_value(value);
        assert_eq!(field.get_input(), value.to_string());
        assert_eq!(field.parse().unwrap(), value);
    }
}

struct NoRuleI32;

impl Rule<i32> for NoRuleI32 {
    fn check(&self, _value: &i32) -> ValidationResult {
        Ok(())
    }
}

#[test]
fn set_value_of_a_rejected_value_fails_validation() {
    let mut field: Integer<u32, GreaterThanZero> =
        Scalar::new(&1, Validations::from_vec(vec![GreaterThanZero]));
    field.set_value(0);
    assert_eq!(validation_messages(field.parse()), vec!["Input must be greater than zero"]);
}

#[test]
fn text_field_takes_every_text() {
    let mut field: Text<NotEmpty> = Scalar::default();
    assert_eq!(field.get_input(), "");
    assert_eq!(field.parse().unwrap(), "");
    field.update("  hello, wörld ".to_string());
    assert_eq!(field.parse().unwrap(), "  hello, wörld ");
    field.set_value("again".to_string());
    assert_eq!(field.parse().unwrap(), "again");
    let mut strict: Text<NotEmpty> =
        Scalar::new(&"x".to_string(), Validations::from_vec(vec![NotEmpty]));
    assert_eq!(strict.parse().unwrap(), "x");
    strict.update(String::new());
    assert_eq!(validation_messages(strict.parse()), vec!["Input must not be empty"]);
}

#[test]
fn decimal_field_parses_and_writes_through_rust_decimal() {
    let mut field: Decimal<Whole> = Scalar::default();
    assert_eq!(field.get_input(), "0");
    field.update("3.141".to_string());
    let value = field.parse().unwrap();
    assert_eq!(value.mantissa(), 3141);
    assert_eq!(value.scale(), 3);
    field.update("-0.50".to_string());
    let value = field.parse().unwrap();
    assert_eq!((value.mantissa(), value.scale()), (-50, 2));
    field.set_value(DecimalValue::new(-1234567, 4).unwrap());
    assert_eq!(field.get_input(), "-123.4567");
    assert_eq!(field.parse().unwrap(), DecimalValue::new(-1234567, 4).unwrap());
    field.set_value(DecimalValue::new(5, 3).unwrap());
    assert_eq!(field.get_input(), "0.005");
}

#[test]
fn decimal_field_fails_with_the_message_of_rust_decimal() {
    let mut field: Decimal<Whole> = Scalar::default();
    field.update("one".to_string());
    match field.parse() {
        Err(Error::Parse(ParseFailure::Decimal(message))) => {
            let theirs = "one".parse::<rust_decimal::Decimal>().unwrap_err().to_string();
            assert_eq!(message, theirs);
        }
        other => panic!("{:?}", other),
    }
    assert_eq!(field.get_input(), "one");
    let mut whole: Decimal<Whole> =
        Scalar::new(&DecimalValue::default(), Validations::from_vec(vec![Whole]));
    whole.update("1.5".to_string());
    assert_eq!(validation_messages(whole.parse()), vec!["Input must be whole"]);
    whole.update("15".to_string());
    assert_eq!(whole.parse().unwrap(), DecimalValue::new(15, 0).unwrap());
}

#[test]
fn decimal_values_keep_within_their_bounds() {
    assert!(DecimalValue::new(0, 28).is_some());
    assert!(DecimalValue::new(0, 29).is_none());
    let most: i128 = 0xffff_ffff_ffff_ffff_ffff_ffff;
    assert!(DecimalValue::new(most, 0).is_some());
    assert!(DecimalValue::new(-most, 0).is_some());
    assert!(DecimalValue::new(most + 1, 0).is_none());
    assert!(DecimalValue::new(-most - 1, 0).is_none());
    assert_eq!(DecimalValue::default(), DecimalValue::new(0, 0).unwrap());
}
