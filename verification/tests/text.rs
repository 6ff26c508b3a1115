use form_inputs::errors::IntErrorKind;
use form_inputs::text::{parse_int, write_int, TextValue};

fn kind_of(error: &std::num::ParseIntError) -> IntErrorKind {
    match error.kind() {
        std::num::IntErrorKind::Empty => IntErrorKind::Empty,
        std::num::IntErrorKind::InvalidDigit => IntErrorKind::InvalidDigit,
        std::num::IntErrorKind::PosOverflow => IntErrorKind::PosOverflow,
        std::num::IntErrorKind::NegOverflow => IntErrorKind::NegOverflow,
        _ => panic!("a kind that reading never gives"),
    }
}

const TEXTS: [&str; 44] = [
    "", "0", "7", "12", "13", "007", "+5", "+", "-", "-0", "-1", "--1", "+-1", "1+", " 1", "1 ",
    "1_000", "0x10", "255", "256", "127", "128", "-128", "-129", "65535", "65536", "4294967295",
    "4294967296", "2147483647", "2147483648", "-2147483648", "-2147483649",
    "18446744073709551615", "18446744073709551616", "9223372036854775807",
    "9223372036854775808", "-9223372036854775808", "-9223372036854775809",
    "99999999999999999999999999999999999999999", "99999999999999999999x", "x99999999999999999999",
    "-99999999999999999999x", "١٢", "1.5",
];

#[test]
fn u32_reads_as_std_does() {
    for text in TEXTS {
        let ours = u32::from_text(text);
        match text.parse::<u32>() {
            Ok(value) => assert_eq!(ours.unwrap(), value, "{:?}", text),
            Err(error) => match ours.unwrap_err() {
                form_inputs::errors::ParseFailure::Integer(kind) => {
                    assert_eq!(kind, kind_of(&error), "{:?}", text);
                    assert_eq!(kind.to_string(), error.to_string(), "{:?}", text);
                }
                other => panic!("{:?} gave {:?}", text, other),
            },
        }
    }
}

#[test]
fn i32_reads_as_std_does() {
    for text in TEXTS {
        let ours = i32::from_text(text);
        match text.parse::<i32>() {
            Ok(value) => assert_eq!(ours.unwrap(), value, "{:?}", text),
            Err(error) => match ours.unwrap_err() {
                form_inputs::errors::ParseFailure::Integer(kind) => {
                    assert_eq!(kind, kind_of(&error), "{:?}", text);
                    assert_eq!(kind.to_string(), error.to_string(), "{:?}", text);
                }
                other => panic!("{:?} gave {:?}", text, other),
            },
        }
    }
}

#[test]
fn small_and_wide_types_read_as_std_does() {
    for text in TEXTS {
        assert_eq!(u8::from_text(text).ok(), text.parse::<u8>().ok(), "{:?}", text);
        assert_eq!(i8::from_text(text).ok(), text.parse::<i8>().ok(), "{:?}", text);
        assert_eq!(u16::from_text(text).ok(), text.parse::<u16>().ok(), "{:?}", text);
        assert_eq!(i16::from_text(text).ok(), text.parse::<i16>().ok(), "{:?}", text);
        assert_eq!(u64::from_text(text).ok(), text.parse::<u64>().ok(), "{:?}", text);
        assert_eq!(i64::from_text(text).ok(), text.parse::<i64>().ok(), "{:?}", text);
    }
}

#[test]
fn wide_types_fail_with_the_kind_of_std() {
    for text in TEXTS {
        if let Err(error) = text.parse::<i64>() {
            assert_eq!(
                parse_int(text, true, i64::MIN as i128, i64::MAX as i128).unwrap_err(),
                kind_of(&error),
                "{:?}",
                text
            );
        }
        if let Err(error) = text.parse::<u64>() {
            assert_eq!(
                parse_int(text, false, 0, u64::MAX as i128).unwrap_err(),
                kind_of(&error),
                "{:?}",
                text
            );
        }
        if let Err(error) = text.parse::<i8>() {
            assert_eq!(
                parse_int(text, true, i8::MIN as i128, i8::MAX as i128).unwrap_err(),
                kind_of(&error),
                "{:?}",
                text
            );
        }
    }
}

#[test]
fn parse_int_exact_values() {
    assert_eq!(parse_int("42", false, 0, 100), Ok(42));
    assert_eq!(parse_int("+42", false, 0, 100), Ok(42));
    assert_eq!(parse_int("-42", true, -100, 100), Ok(-42));
    assert_eq!(parse_int("101", false, 0, 100), Err(IntErrorKind::PosOverflow));
    assert_eq!(parse_int("-101", true, -100, 100), Err(IntErrorKind::NegOverflow));
    assert_eq!(parse_int("-1", false, 0, 100), Err(IntErrorKind::InvalidDigit));
    assert_eq!(parse_int("", false, 0, 100), Err(IntErrorKind::Empty));
}

#[test]
fn numbers_are_written_as_std_writes_them() {
    let values: [i128; 13] = [
        0,
        1,
        9,
        10,
        99,
        100,
        -1,
        -10,
        2024,
        i64::MIN as i128,
        i64::MAX as i128,
        u64::MAX as i128,
        -2147483648,
    ];
    for value in values {
        assert_eq!(write_int(value), value.to_string());
    }
    assert_eq!(7u8.to_text(), "7");
    assert_eq!((-128i8).to_text(), "-128");
    assert_eq!(u64::MAX.to_text(), "18446744073709551615");
    assert_eq!(i64::MIN.to_text(), "-9223372036854775808");
}

#[test]
fn written_numbers_read_back() {
    for value in [0u32, 1, 9, 10, 11, 12, 13, 1000, u32::MAX] {
        assert_eq!(u32::from_text(&value.to_text()).unwrap(), value);
    }
    for value in [i32::MIN, -1, 0, 1, i32::MAX] {
        assert_eq!(i32::from_text(&value.to_text()).unwrap(), value);
    }
    for value in [i64::MIN, i64::MAX] {
        assert_eq!(i64::from_text(&value.to_text()).unwrap(), value);
    }
}

#[test]
fn text_reads_as_itself() {
    assert_eq!(String::from_text("").unwrap(), "");
    assert_eq!(String::from_text(" any thing ").unwrap(), " any thing ");
    assert_eq!("abc".to_string().to_text(), "abc");
}
