use chrono::Duration;
use measure::{DecodeErr, IntErrorKind, MeasureErr, Measurement};

#[test]
fn serialize() {
    let (hours, mins) = (Duration::hours(3), Duration::minutes(3));
    let measurement = Measurement::from(hours.checked_add(&mins).unwrap());
    assert_eq!(measurement.encode(), "P0DT3H3M0S");
}

#[test]
fn deserialize() {
    let deserialized = Measurement::decode("P0DT3H3M0S").expect("failed to deserialize");
    let (hours, mins) = (Duration::hours(3), Duration::minutes(3));
    let measurement = Measurement::from(hours.checked_add(&mins).unwrap());
    assert_eq!(measurement, deserialized);
}

#[test]
fn encode_zero() {
    assert_eq!(Measurement::zero().encode(), "P0DT0H0M0S");
}

#[test]
fn encode_splits_into_the_four_fields() {
    let span = Duration::days(12) + Duration::hours(23) + Duration::minutes(59)
        + Duration::seconds(58);
    assert_eq!(Measurement::from(span).encode(), "P12DT23H59M58S");
    assert_eq!(Measurement::from(Duration::seconds(86_400)).encode(), "P1DT0H0M0S");
    assert_eq!(Measurement::from(Duration::seconds(86_399)).encode(), "P0DT23H59M59S");
    assert_eq!(Measurement::from(Duration::weeks(3)).encode(), "P21DT0H0M0S");
    assert_eq!(Measurement::from(Duration::MAX).encode(), "P106751991167DT7H12M55S");
}

#[test]
fn encode_of_a_duration_past_the_range() {
    let doubled = Measurement::from(Duration::MAX * 2);
    assert_eq!(doubled.encode(), "P213503982334DT14H25M51S");
    assert_eq!(Measurement::decode(&doubled.encode()),
        Err(DecodeErr::Measure(MeasureErr::Overflow)));
    let below = Measurement::from(Duration::MIN * 2);
    assert_eq!(below.encode(), "P-213503982334DT-14H-25M-51S");
}

#[test]
fn encode_drops_what_is_finer_than_a_second() {
    let span = Duration::seconds(59) + Duration::nanoseconds(999_999_999);
    assert_eq!(Measurement::from(span).encode(), "P0DT0H0M59S");
    assert_eq!(Measurement::from(Duration::nanoseconds(-999_999_999)).encode(), "P0DT0H0M0S");
}

#[test]
fn encode_writes_the_sign_into_each_field() {
    let span = Duration::days(-1) + Duration::hours(-2) + Duration::minutes(-3)
        + Duration::seconds(-4);
    assert_eq!(Measurement::from(span).encode(), "P-1DT-2H-3M-4S");
    assert_eq!(Measurement::from(Duration::seconds(-61)).encode(), "P0DT0H-1M-1S");
    assert_eq!(Measurement::from(Duration::MIN).encode(), "P-106751991167DT-7H-12M-55S");
}

#[test]
fn decode_three_hours_three_minutes() {
    let expected = (Measurement::try_hours(3).unwrap() + Measurement::try_minutes(3).unwrap())
        .unwrap();
    assert_eq!(Measurement::decode("P0DT3H3M0S"), Ok(expected));
}

#[test]
fn decode_takes_any_units_on_either_side() {
    assert_eq!(Measurement::decode("PT"), Ok(Measurement::zero()));
    assert_eq!(Measurement::decode("P2WT"), Ok(Measurement::from(Duration::days(14))));
    assert_eq!(Measurement::decode("P1W1DT"), Ok(Measurement::from(Duration::days(8))));
    assert_eq!(Measurement::decode("PT90S"), Ok(Measurement::from(Duration::seconds(90))));
    assert_eq!(Measurement::decode("P1H1ST1D"),
        Ok(Measurement::from(Duration::seconds(86_400 + 3_600 + 1))));
    assert_eq!(Measurement::decode("PT1S1S1S"), Ok(Measurement::from(Duration::seconds(3))));
    assert_eq!(Measurement::decode("P007DT0010M"),
        Ok(Measurement::from(Duration::days(7) + Duration::minutes(10))));
    assert_eq!(Measurement::decode("P000000000000000000000000000001DT"),
        Ok(Measurement::from(Duration::days(1))));
}

#[test]
fn decode_takes_no_sign() {
    let empty = Err(DecodeErr::Measure(MeasureErr::ParseIntError(IntErrorKind::Empty)));
    assert_eq!(Measurement::decode("P+1DT"), empty);
    assert_eq!(Measurement::decode("PT-0S"), empty);
}

#[test]
fn decode_missing_designator() {
    assert_eq!(Measurement::decode("X0DT0H0M0S"), Err(DecodeErr::MissingDesignator));
    assert_eq!(Measurement::decode(""), Err(DecodeErr::MissingDesignator));
    assert_eq!(Measurement::decode("p0DT0H0M0S"), Err(DecodeErr::MissingDesignator));
    assert_eq!(Measurement::decode(" P0DT0H0M0S"), Err(DecodeErr::MissingDesignator));
}

#[test]
fn decode_count_that_is_no_number() {
    let empty = Err(DecodeErr::Measure(MeasureErr::ParseIntError(IntErrorKind::Empty)));
    assert_eq!(Measurement::decode("P0DTXH"), empty);
    assert_eq!(Measurement::decode("PD"), empty);
    assert_eq!(Measurement::decode("PTT"), empty);
    assert_eq!(Measurement::decode("P-1DT0H0M0S"), empty);
    assert_eq!(Measurement::decode("P0DT0H0M0S "), empty);
    assert_eq!(Measurement::decode("P0DT0H0M\u{0663}S"), empty);
}

#[test]
fn decode_count_too_large_for_the_integer() {
    let too_large = Err(DecodeErr::Measure(MeasureErr::ParseIntError(IntErrorKind::Overflow)));
    assert_eq!(Measurement::decode("P9223372036854775808DT"), too_large);
    assert_eq!(Measurement::decode("PT99999999999999999999999999S"), too_large);
    assert_eq!(Measurement::decode("PT99999999999999999999999999"), too_large);
    assert_eq!(Measurement::decode("P9223372036854775807DT"),
        Err(DecodeErr::Measure(MeasureErr::Overflow)));
}

#[test]
fn decode_unknown_unit() {
    assert_eq!(Measurement::decode("P0DT0Z0M0S"), Err(DecodeErr::UnknownUnit { unit: 'Z' }));
    assert_eq!(Measurement::decode("P5T"), Err(DecodeErr::UnknownUnit { unit: 'T' }));
    assert_eq!(Measurement::decode("P1dT"), Err(DecodeErr::UnknownUnit { unit: 'd' }));
    assert_eq!(Measurement::decode("PT1µ"), Err(DecodeErr::UnknownUnit { unit: 'µ' }));
}

#[test]
fn decode_missing_unit() {
    assert_eq!(Measurement::decode("P60"), Err(DecodeErr::MissingUnit));
    assert_eq!(Measurement::decode("P0DT0H0M0"), Err(DecodeErr::MissingUnit));
}

#[test]
fn decode_missing_time_separator() {
    assert_eq!(Measurement::decode("P"), Err(DecodeErr::MissingTimeSeparator));
    assert_eq!(Measurement::decode("P1D"), Err(DecodeErr::MissingTimeSeparator));
    assert_eq!(Measurement::decode("P1D2H3M4S"), Err(DecodeErr::MissingTimeSeparator));
}

#[test]
fn decode_component_out_of_range() {
    let overflow = Err(DecodeErr::Measure(MeasureErr::Overflow));
    assert_eq!(Measurement::decode("P15250284453WT"), overflow);
    assert_eq!(Measurement::decode("P106751991168DT"), overflow);
    assert_eq!(Measurement::decode("PT9223372036854776S"), overflow);
    assert_eq!(Measurement::decode("PT9223372036854775807H"), overflow);
    assert_eq!(Measurement::decode("PT9223372036854775S"),
        Ok(Measurement::from(Duration::seconds(9_223_372_036_854_775))));
}

#[test]
fn decode_sum_out_of_range() {
    let overflow = Err(DecodeErr::Measure(MeasureErr::Overflow));
    assert_eq!(Measurement::decode("P106751991167D106751991167DT"), overflow);
    assert_eq!(Measurement::decode("P106751991167DT7H12M56S"), overflow);
    assert_eq!(Measurement::decode("P106751991167DT7H12M55S"),
        Ok(Measurement::from(Duration::seconds(i64::MAX / 1_000))));
}

#[test]
fn decode_reports_the_first_failure() {
    assert_eq!(Measurement::decode("X"), Err(DecodeErr::MissingDesignator));
    assert_eq!(Measurement::decode("P1Z"), Err(DecodeErr::UnknownUnit { unit: 'Z' }));
    assert_eq!(Measurement::decode("P99999999999999999999Z"),
        Err(DecodeErr::Measure(MeasureErr::ParseIntError(IntErrorKind::Overflow))));
    assert_eq!(Measurement::decode("P9223372036854775807Z"),
        Err(DecodeErr::UnknownUnit { unit: 'Z' }));
    assert_eq!(Measurement::decode("P106751991167D106751991167DX"),
        Err(DecodeErr::Measure(MeasureErr::Overflow)));
}

#[test]
fn round_trip() {
    let spans = [
        Duration::zero(),
        Duration::seconds(42),
        Duration::seconds(59),
        Duration::minutes(61),
        Duration::days(3) + Duration::hours(4) + Duration::minutes(5) + Duration::seconds(6),
        Duration::weeks(5) + Duration::seconds(1),
        Duration::days(36_500),
        Duration::seconds(i64::MAX / 1_000),
    ];
    for span in spans {
        let m = Measurement::from(span);
        assert_eq!(Measurement::decode(&m.encode()), Ok(m));
    }
}

#[test]
fn round_trip_keeps_whole_seconds_only() {
    let span = Duration::seconds(42) + Duration::nanoseconds(999_999_999);
    let decoded = Measurement::decode(&Measurement::from(span).encode());
    assert_eq!(decoded, Ok(Measurement::from(Duration::seconds(42))));
    let decoded = Measurement::decode(&Measurement::from(Duration::MAX).encode());
    assert_eq!(decoded, Ok(Measurement::from(Duration::seconds(i64::MAX / 1_000))));
    let decoded = Measurement::decode(&Measurement::from(Duration::nanoseconds(-5)).encode());
    assert_eq!(decoded, Ok(Measurement::zero()));
}

#[test]
fn negative_spans_do_not_round_trip() {
    let empty = Err(DecodeErr::Measure(MeasureErr::ParseIntError(IntErrorKind::Empty)));
    for span in [Duration::seconds(-1), Duration::minutes(-1), Duration::hours(-1),
        Duration::days(-1), Duration::MIN]
    {
        assert_eq!(Measurement::decode(&Measurement::from(span).encode()), empty);
    }
}

#[test]
fn reencoding_is_idempotent() {
    let spans = [
        Duration::zero(),
        Duration::nanoseconds(-1),
        Duration::milliseconds(1_999),
        Duration::days(3) + Duration::nanoseconds(1),
        Duration::weeks(5) + Duration::milliseconds(17),
        Duration::MAX,
    ];
    for span in spans {
        let text = Measurement::from(span).encode();
        let again = Measurement::decode(&text).unwrap().encode();
        assert_eq!(again, text);
    }
}

#[test]
fn reencoding_a_foreign_text_gives_the_canonical_one() {
    assert_eq!(Measurement::decode("P1WT90M").unwrap().encode(), "P7DT1H30M0S");
    assert_eq!(Measurement::decode("PT").unwrap().encode(), "P0DT0H0M0S");
}
