use form_inputs::rules::{greater_than_zero, GreaterThanZero};
use form_inputs::{Rule, ValidationResult, Validations};

/// Rejects what is not a multiple of `self.0`.
struct MultipleOf(u32);

impl Rule<u32> for MultipleOf {
    fn check(&self, value: &u32) -> ValidationResult {
        if value % self.0 == 0 {
            Ok(())
        } else {
            Err(format!("{} is no multiple of {}", value, self.0))
        }
    }
}

fn messages(set: &Validations<u32, MultipleOf>, value: u32) -> Vec<String> {
    match set.validate(&value) {
        Ok(()) => Vec::new(),
        Err(errors) => errors.messages().clone(),
    }
}

#[test]
fn empty_rule_set_accepts() {
    let set: Validations<u32, GreaterThanZero> = Validations::new();
    assert!(set.validate(&0).is_ok());
    let set: Validations<u32, GreaterThanZero> = Validations::from_vec(Vec::new());
    assert!(set.validate(&0).is_ok());
}

#[test]
fn greater_than_zero_rejects_zero_only() {
    assert_eq!(greater_than_zero(&0), Err("Input must be greater than zero".to_string()));
    assert_eq!(greater_than_zero(&1), Ok(()));
    assert_eq!(greater_than_zero(&u32::MAX), Ok(()));
    assert_eq!(GreaterThanZero.check(&0), Err("Input must be greater than zero".to_string()));
    assert_eq!(GreaterThanZero.check(&9), Ok(()));
}

#[test]
fn every_rule_is_asked_and_failures_keep_their_order() {
    let set = Validations::from_vec(vec![
        MultipleOf(2),
        MultipleOf(3),
        MultipleOf(5),
        MultipleOf(7),
    ]);
    assert_eq!(messages(&set, 210), Vec::<String>::new());
    assert_eq!(messages(&set, 30), vec!["30 is no multiple of 7"]);
    assert_eq!(messages(&set, 7), vec![
        "7 is no multiple of 2",
        "7 is no multiple of 3",
        "7 is no multiple of 5"
    ]);
    assert_eq!(messages(&set, 10), vec!["10 is no multiple of 3", "10 is no multiple of 7"]);
    assert_eq!(messages(&set, 1), vec![
        "1 is no multiple of 2",
        "1 is no multiple of 3",
        "1 is no multiple of 5",
        "1 is no multiple of 7"
    ]);
}

#[test]
fn a_rule_that_stands_twice_answers_twice() {
    let set = Validations::from_vec(vec![MultipleOf(2), MultipleOf(2)]);
    assert_eq!(messages(&set, 5), vec!["5 is no multiple of 2", "5 is no multiple of 2"]);
    assert!(set.validate(&4).is_ok());
}
