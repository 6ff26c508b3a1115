use form_inputs::errors::ParseFailure;
use form_inputs::inputs::{BasicSelect, RelationalSelect, Select, SelectError};
use form_inputs::{Error, UserInput};

fn strings(items: &[&str]) -> Vec<String> {
    items.iter().map(|s| s.to_string()).collect()
}

#[test]
fn select_parses_a_member() {
    let mut field: Select<u32> = Select::new(2, vec![1, 2, 3]);
    assert_eq!(field.get_input(), "2");
    assert_eq!(field.parse().unwrap(), 2);
    field.update("3".to_string());
    assert_eq!(field.parse().unwrap(), 3);
    field.update("+1".to_string());
    assert_eq!(field.parse().unwrap(), 1);
}

#[test]
fn select_refuses_what_is_no_member() {
    let mut field: Select<u32> = Select::new(2, vec![1, 2, 3]);
    field.update("4".to_string());
    match field.parse() {
        Err(Error::Parse(ParseFailure::Select(error))) => {
            assert_eq!(error.to_string(), "Value 4 is not in the list of allowed options")
        }
        other => panic!("{:?}", other),
    }
    assert_eq!(field.get_input(), "4");
    field.update("four".to_string());
    assert!(matches!(field.parse(), Err(Error::Parse(ParseFailure::Integer(_)))));
    field.set_value(9);
    assert_eq!(
        field.parse().unwrap_err().to_string(),
        "parse error Value 9 is not in the list of allowed options"
    );
    field.set_value(1);
    assert_eq!(field.parse().unwrap(), 1);
}

#[test]
fn select_holds_each_option_once() {
    let given = vec![5, 3, 5, 1, 3, 3, 9];
    let field: Select<u32> = Select::new(5, given.clone());
    assert_eq!(field.iter_options(), &vec![1, 3, 5, 9]);
    let set: std::collections::BTreeSet<u32> = given.into_iter().collect();
    assert_eq!(field.iter_options(), &set.into_iter().collect::<Vec<u32>>());
    let none: Select<u32> = Select::new(5, Vec::new());
    assert!(none.iter_options().is_empty());
    assert!(none.parse().is_err());
}

#[test]
fn basic_select_takes_texts() {
    let mut field: BasicSelect =
        Select::new("red".to_string(), strings(&["red", "green", "red", "blue"]));
    assert_eq!(field.iter_options(), &strings(&["blue", "green", "red"]));
    assert_eq!(field.parse().unwrap(), "red");
    field.update("blue".to_string());
    assert_eq!(field.parse().unwrap(), "blue");
    field.update("Blue".to_string());
    assert_eq!(
        field.parse().unwrap_err().to_string(),
        "parse error Value Blue is not in the list of allowed options"
    );
}

#[test]
fn relational_select_parses_a_key_of_the_mapping() {
    let options = vec![(1u32, "Jan".to_string()), (2, "Feb".to_string())];
    let mut field: RelationalSelect<u32, String> = RelationalSelect::new("1".to_string(), options);
    assert_eq!(field.get_input(), "1");
    assert_eq!(field.parse().unwrap(), 1);
    field.update("2".to_string());
    assert_eq!(field.parse().unwrap(), 2);
}

#[test]
fn relational_select_names_the_text_that_is_no_key() {
    let options = vec![(1u32, "Jan".to_string()), (2, "Feb".to_string())];
    let mut field: RelationalSelect<u32, String> = RelationalSelect::new("3".to_string(), options);
    match field.parse() {
        Err(Error::Parse(ParseFailure::Select(error))) => {
            assert_eq!(error.to_string(), "Value 3 is not in the list of allowed options")
        }
        other => panic!("{:?}", other),
    }
    assert_eq!(field.get_input(), "3");
    field.update("Jan".to_string());
    assert!(matches!(field.parse(), Err(Error::Parse(ParseFailure::Integer(_)))));
    field.update("03".to_string());
    match field.parse() {
        Err(Error::Parse(ParseFailure::Select(error))) => {
            assert_eq!(error.to_string(), "Value 03 is not in the list of allowed options")
        }
        other => panic!("{:?}", other),
    }
    field.set_value(2);
    assert_eq!(field.get_input(), "2");
    assert_eq!(field.parse().unwrap(), 2);
}

#[test]
fn relational_select_keeps_the_last_label_of_a_key() {
    let options = vec![
        (2u32, "two"),
        (1, "one"),
        (2, "zwei"),
        (3, "three"),
        (1, "eins"),
        (2, "deux"),
    ];
    let field: RelationalSelect<u32, &str> = RelationalSelect::new(String::new(), options.clone());
    assert_eq!(field.iter_options(), vec![(&1, &"eins"), (&2, &"deux"), (&3, &"three")]);
    let map: std::collections::BTreeMap<u32, &str> = options.into_iter().collect();
    assert_eq!(field.iter_options(), map.iter().collect::<Vec<(&u32, &&str)>>());
    assert!(field.parse().is_err());
}

#[test]
fn relational_select_by_text_keys() {
    let options = vec![("a".to_string(), 1), ("b".to_string(), 2)];
    let mut field: RelationalSelect<String, i32> = RelationalSelect::new("b".to_string(), options);
    assert_eq!(field.parse().unwrap(), "b");
    field.update("c".to_string());
    assert!(field.parse().is_err());
}

#[test]
fn signed_options_stand_in_the_order_of_numbers() {
    let field: Select<i32> = Select::new(0, vec![3, -7, 0, i32::MAX, -1, i32::MIN, 3]);
    assert_eq!(field.iter_options(), &vec![i32::MIN, -7, -1, 0, 3, i32::MAX]);
    assert_eq!(field.parse().unwrap(), 0);
}

#[test]
fn text_options_stand_in_the_order_of_std() {
    let given = strings(&["b", "", "ab", "a", "B", "é", "abc", "z", "aa", "a", "日本", "\u{10000}"]);
    let field: BasicSelect = Select::new(String::new(), given.clone());
    let set: std::collections::BTreeSet<String> = given.into_iter().collect();
    assert_eq!(field.iter_options(), &set.into_iter().collect::<Vec<String>>());
    assert_eq!(field.parse().unwrap(), "");
}

#[test]
fn select_error_is_made_of_the_selection() {
    assert_eq!(
        SelectError::new(String::new()).to_string(),
        "Value  is not in the list of allowed options"
    );
}
