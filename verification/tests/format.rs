use chrono::Duration;
use measure::Measurement;

#[test]
fn format_hours_one_chunk() {
    let one_chunk = Measurement::from(Duration::hours(10));
    assert_eq!("10 h", one_chunk.format());
}

#[test]
fn format_hours_two_chunks() {
    let (hours, mins) = (Duration::hours(3), Duration::minutes(3));
    let two_chunks = Measurement::from(hours.checked_add(&mins).unwrap());
    assert_eq!("3 h 3 m", two_chunks.format());
}

#[test]
fn format_minutes_one_chunk() {
    let one_chunk = Measurement::from(Duration::minutes(10));
    assert_eq!("10 m", one_chunk.format());
}

#[test]
fn format_minutes_two_chunks() {
    let (mins, secs) = (Duration::minutes(3), Duration::seconds(3));
    let two_chunks = Measurement::from(mins.checked_add(&secs).unwrap());
    assert_eq!("3 m 3 s", two_chunks.format());
}

#[test]
fn format_seconds_one_chunk() {
    let one_chunk = Measurement::from(Duration::seconds(10));
    assert_eq!("10 s", one_chunk.format());
}

#[test]
fn format_seconds_two_chunks() {
    let (secs, millis) = (Duration::seconds(3), Duration::milliseconds(3));
    let two_chunks = Measurement::from(secs.checked_add(&millis).unwrap());
    assert_eq!("3 s 3 ms", two_chunks.format());
}

#[test]
fn format_milliseconds_one_chunk() {
    let one_chunk = Measurement::from(Duration::milliseconds(10));
    assert_eq!("10 ms", one_chunk.format());
}

#[test]
fn format_milliseconds_two_chunks() {
    let millis = Duration::milliseconds(3);
    let micros = Duration::microseconds(3);
    let two_chunks = Measurement::from(millis.checked_add(&micros).unwrap());
    assert_eq!("3 ms 3 µs", two_chunks.format());
}

#[test]
fn format_microseconds_one_chunk() {
    let one_chunk = Measurement::from(Duration::microseconds(10));
    assert_eq!("10 µs", one_chunk.format());
}

#[test]
fn format_microseconds_two_chunks() {
    let micros = Duration::microseconds(3);
    let nanos = Duration::nanoseconds(3);
    let two_chunks = Measurement::from(micros.checked_add(&nanos).unwrap());
    assert_eq!("3 µs 3 ns", two_chunks.format());
}

#[test]
fn format_nanoseconds_one_chunk() {
    let one_chunk = Measurement::from(Duration::nanoseconds(10));
    assert_eq!("10 ns", one_chunk.format());
}

#[test]
fn format_zero() {
    assert_eq!("0 ns", Measurement::zero().format());
}

#[test]
fn format_thresholds_are_strict() {
    let at = |nanos: i64| Measurement::from(Duration::nanoseconds(nanos)).format();
    assert_eq!("999 ns", at(999));
    assert_eq!("1 µs", at(1_000));
    assert_eq!("999 µs 999 ns", at(999_999));
    assert_eq!("1 ms", at(1_000_000));
    assert_eq!("999 ms 999 µs", at(999_999_999));
    assert_eq!("1 s", at(1_000_000_000));
    assert_eq!("59 s 999 ms", at(59_999_999_999));
    assert_eq!("1 m", at(60_000_000_000));
    assert_eq!("59 m 59 s", at(3_599_999_999_999));
    assert_eq!("1 h", at(3_600_000_000_000));
}

#[test]
fn format_shows_two_units_only() {
    let span = Duration::hours(3) + Duration::minutes(3) + Duration::seconds(3);
    assert_eq!("3 h 3 m", Measurement::from(span).format());
    let span = Duration::hours(3) + Duration::seconds(3);
    assert_eq!("3 h", Measurement::from(span).format());
    let span = Duration::seconds(2) + Duration::microseconds(5);
    assert_eq!("2 s", Measurement::from(span).format());
}

#[test]
fn format_hours_have_no_upper_bucket() {
    let span = Duration::days(100) + Duration::minutes(7);
    assert_eq!("2400 h 7 m", Measurement::from(span).format());
    let longest = Measurement::from(Duration::nanoseconds(i64::MAX));
    assert_eq!("2562047 h 47 m", longest.format());
}

#[test]
fn format_too_long_to_count() {
    assert_eq!("overflow", Measurement::from(Duration::MAX).format());
    assert_eq!("overflow", Measurement::from(Duration::MIN).format());
    let past = Duration::nanoseconds(i64::MAX) + Duration::nanoseconds(1);
    assert_eq!("overflow", Measurement::from(past).format());
    assert_eq!("overflow", Measurement::from(Duration::MAX * 2).format());
    assert_eq!("overflow", Measurement::from(Duration::MIN * 900).format());
}

#[test]
fn format_negative_span_shows_magnitude_and_sign() {
    let at = |nanos: i64| Measurement::from(Duration::nanoseconds(nanos)).format();
    assert_eq!("-1 ns", at(-1));
    assert_eq!("-999 ns", at(-999));
    assert_eq!("-1 µs", at(-1_000));
    assert_eq!("-3 ms 3 µs", at(-3_003_000));
    assert_eq!("-59 s 999 ms", at(-59_999_999_999));
    assert_eq!("-1 h", at(-3_600_000_000_000));
    assert_eq!("-2562047 h 47 m", at(i64::MIN));
    let span = Duration::hours(-3) + Duration::minutes(-3) + Duration::seconds(-3);
    assert_eq!("-3 h 3 m", Measurement::from(span).format());
}
