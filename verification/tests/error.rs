use measure::{DecodeErr, IntErrorKind, MeasureErr, MeasureResult};

#[test]
fn parse_failures_are_classified() {
    let empty = "".parse::<i64>().unwrap_err();
    assert_eq!(MeasureErr::from(empty), MeasureErr::ParseIntError(IntErrorKind::Empty));
    let invalid = "12x".parse::<i64>().unwrap_err();
    assert_eq!(MeasureErr::from(invalid), MeasureErr::ParseIntError(IntErrorKind::InvalidDigit));
    let too_large = "9223372036854775808".parse::<i64>().unwrap_err();
    assert_eq!(MeasureErr::from(too_large), MeasureErr::ParseIntError(IntErrorKind::Overflow));
    let too_small = "-9223372036854775809".parse::<i64>().unwrap_err();
    assert_eq!(MeasureErr::from(too_small), MeasureErr::ParseIntError(IntErrorKind::Underflow));
}

#[test]
fn parse_failure_with_another_message_is_kept() {
    let zero = "0".parse::<std::num::NonZeroU8>().unwrap_err();
    let text = zero.to_string();
    assert_eq!(text, "number would be zero for non-zero type");
    assert_eq!(MeasureErr::from(zero),
        MeasureErr::ParseIntError(IntErrorKind::Unknown { msg: text }));
}

#[test]
fn question_mark_converts_a_parse_failure() {
    fn read(text: &str) -> MeasureResult<i64> {
        Ok(text.parse::<i64>()?)
    }
    assert_eq!(read("17"), Ok(17));
    assert_eq!(read("seventeen"), Err(MeasureErr::ParseIntError(IntErrorKind::InvalidDigit)));
}

#[test]
fn known_messages_are_classified() {
    assert_eq!(IntErrorKind::from_message("cannot parse integer from empty string"),
        IntErrorKind::Empty);
    assert_eq!(IntErrorKind::from_message("invalid digit found in string"),
        IntErrorKind::InvalidDigit);
    assert_eq!(IntErrorKind::from_message("number too large to fit in target type"),
        IntErrorKind::Overflow);
    assert_eq!(IntErrorKind::from_message("number too small to fit in target type"),
        IntErrorKind::Underflow);
}

#[test]
fn other_messages_are_kept_verbatim() {
    for msg in ["", "number would be zero for non-zero type", "Invalid digit found in string",
        "invalid digit found in string "]
    {
        assert_eq!(IntErrorKind::from_message(msg),
            IntErrorKind::Unknown { msg: String::from(msg) });
    }
}

#[test]
fn errors_compare_and_clone() {
    let unknown = MeasureErr::ParseIntError(IntErrorKind::Unknown { msg: String::from("why") });
    assert_eq!(unknown.clone(), unknown);
    assert_ne!(unknown, MeasureErr::ParseIntError(IntErrorKind::Empty));
    assert!(MeasureErr::Overflow < MeasureErr::Underflow);
    assert!(MeasureErr::Underflow < unknown);
    assert!(IntErrorKind::Empty < IntErrorKind::InvalidDigit);
    let wrapped = DecodeErr::Measure(MeasureErr::Overflow);
    assert_eq!(wrapped.clone(), wrapped);
    assert_ne!(wrapped, DecodeErr::MissingUnit);
}
