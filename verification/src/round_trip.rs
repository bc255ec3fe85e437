//! What decoding an encoded measurement gives.
//!
//! The encoder keeps whole seconds only and the decoder reads no minus sign,
//! so an encoding decodes to the measurement's whole seconds where the
//! measurement is longer than minus one second, and to nothing otherwise.

use crate::codec::{
    components_spec, decode_spec, encode_spec, fields, lemma_fields, unit_nanos,
};
use crate::decimal::{
    decimal, digit_run, is_digit, lemma_decimal_digits, lemma_read_numeral, signed_decimal,
};
use crate::error::{DecodeErr, IntErrorKind, MeasureErr};
use crate::measurement::{Measurement, NANOS_PER_SEC};
use crate::timedelta::{in_range, whole_seconds};
use vstd::prelude::*;

verus! {

/// The failure of reading a count where no digit stands.
pub open spec fn no_count<T>() -> Result<T, DecodeErr> {
    Err(DecodeErr::Measure(MeasureErr::ParseIntError(IntErrorKind::Empty)))
}

/// The failure of a component or a sum that is out of range.
pub open spec fn overflow<T>() -> Result<T, DecodeErr> {
    Err(DecodeErr::Measure(MeasureErr::Overflow))
}

/// A numeral and a unit letter at the front of a text are read as one
/// component, whose span is added to the running total.
proof fn lemma_component(
    count: int,
    unit: char,
    per_unit: int,
    rest: Seq<char>,
    total: Measurement,
    date_part: bool,
)
    requires
        0 <= count <= i64::MAX,
        unit_nanos(unit) == Some(per_unit),
        total.wf(),
        in_range(count * per_unit),
        in_range(total@ + count * per_unit),
    ensures
        components_spec(field(count, unit, rest), total, date_part) == components_spec(
            rest,
            Measurement::of_nanos(total@ + count * per_unit),
            date_part,
        ),
{
    let numeral = decimal(count as nat);
    let s = numeral + (seq![unit] + rest);
    let k = numeral.len() as int;
    lemma_decimal_digits(count as nat);
    lemma_read_numeral(count as nat, seq![unit] + rest);
    assert(s[0] == numeral[0]);
    assert(is_digit(s[0]));
    assert(digit_run(s) == k);
    assert(s[k] == unit);
    Measurement::lemma_of_nanos(count * per_unit);
    assert(s.skip(k + 1) =~= rest);
}

/// A numeral and a unit letter whose span is out of range, or takes the
/// running total out of range, end the reading with an overflow.
proof fn lemma_component_overflow(
    count: int,
    unit: char,
    per_unit: int,
    rest: Seq<char>,
    total: Measurement,
    date_part: bool,
)
    requires
        0 <= count <= i64::MAX,
        unit_nanos(unit) == Some(per_unit),
        !in_range(count * per_unit) || !in_range(total@ + count * per_unit),
    ensures
        components_spec(field(count, unit, rest), total, date_part) == overflow::<
            (Measurement, Seq<char>),
        >(),
{
    let numeral = decimal(count as nat);
    let s = numeral + (seq![unit] + rest);
    let k = numeral.len() as int;
    lemma_decimal_digits(count as nat);
    lemma_read_numeral(count as nat, seq![unit] + rest);
    assert(s[0] == numeral[0]);
    assert(is_digit(s[0]));
    assert(digit_run(s) == k);
    assert(s[k] == unit);
    if in_range(count * per_unit) {
        Measurement::lemma_of_nanos(count * per_unit);
    }
}

/// A negative field begins with a minus sign, which is read as a count with
/// no digits.
proof fn lemma_negative_field(
    value: int,
    unit: char,
    rest: Seq<char>,
    total: Measurement,
    date_part: bool,
)
    requires
        value < 0,
    ensures
        components_spec(field(value, unit, rest), total, date_part) == no_count::<
            (Measurement, Seq<char>),
        >(),
{
    let s = field(value, unit, rest);
    assert(s[0] == '-');
    assert(digit_run(s) == 0);
}

/// A field of the encoding in front of what follows it: the signed numeral
/// of the value and the unit letter.
spec fn field(value: int, unit: char, rest: Seq<char>) -> Seq<char> {
    signed_decimal(value) + (seq![unit] + rest)
}

/// The encoding with the given values in its four fields.
spec fn layout(days: int, hours: int, minutes: int, seconds: int) -> Seq<char> {
    seq!['P'] + field(days, 'D', seq!['T'] + time_layout(hours, minutes, seconds))
}

/// The part of the encoding after the `T`.
spec fn time_layout(hours: int, minutes: int, seconds: int) -> Seq<char> {
    field(hours, 'H', field(minutes, 'M', field(seconds, 'S', Seq::empty())))
}

/// The encoding is the layout of its fields.
proof fn lemma_encode_layout(n: int)
    ensures
        encode_spec(n) == layout(fields(n).0, fields(n).1, fields(n).2, fields(n).3),
{
    let (days, hours, minutes, seconds) = fields(n);
    assert(encode_spec(n) =~= layout(days, hours, minutes, seconds));
}

/// The time part of an encoding with no negative field is read to its end,
/// and adds the hours, minutes and seconds to what the date part came to.
proof fn lemma_decode_time(hours: int, minutes: int, seconds: int, date: Measurement)
    requires
        0 <= hours < 24,
        0 <= minutes < 60,
        0 <= seconds < 60,
        date.wf(),
        0 <= date@,
        in_range(
            date@ + hours * 3_600_000_000_000 + minutes * 60_000_000_000 + seconds * 1_000_000_000,
        ),
    ensures
        components_spec(time_layout(hours, minutes, seconds), date, false) == Ok::<
            (Measurement, Seq<char>),
            DecodeErr,
        >(
            (
                Measurement::of_nanos(
                    date@ + hours * 3_600_000_000_000 + minutes * 60_000_000_000 + seconds
                        * 1_000_000_000,
                ),
                Seq::empty(),
            ),
        ),
{
    let end = Seq::<char>::empty();
    let from_seconds = field(seconds, 'S', end);
    let from_minutes = field(minutes, 'M', from_seconds);
    let to_hours = Measurement::of_nanos(date@ + hours * 3_600_000_000_000);
    let to_minutes = Measurement::of_nanos(
        date@ + hours * 3_600_000_000_000 + minutes * 60_000_000_000,
    );
    Measurement::lemma_of_nanos(date@ + hours * 3_600_000_000_000);
    Measurement::lemma_of_nanos(date@ + hours * 3_600_000_000_000 + minutes * 60_000_000_000);
    lemma_component(hours, 'H', 3_600_000_000_000, from_minutes, date, false);
    lemma_component(minutes, 'M', 60_000_000_000, from_seconds, to_hours, false);
    lemma_component(seconds, 'S', 1_000_000_000, end, to_minutes, false);
}

/// The date part of an encoding whose days are not negative is read up to
/// the `T`, and comes to the days.
proof fn lemma_decode_date(days: int, time: Seq<char>)
    requires
        0 <= days,
        in_range(days * 86_400_000_000_000),
    ensures
        components_spec(field(days, 'D', seq!['T'] + time), Measurement::of_nanos(0), true) == Ok::<
            (Measurement, Seq<char>),
            DecodeErr,
        >((Measurement::of_nanos(days * 86_400_000_000_000), seq!['T'] + time)),
{
    let rest = seq!['T'] + time;
    Measurement::lemma_of_nanos(0);
    lemma_component(days, 'D', 86_400_000_000_000, rest, Measurement::of_nanos(0), true);
    assert(rest[0] == 'T');
}

/// An encoding with no negative field decodes to the sum of its fields.
proof fn lemma_decode_layout(days: int, hours: int, minutes: int, seconds: int)
    requires
        0 <= days,
        0 <= hours < 24,
        0 <= minutes < 60,
        0 <= seconds < 60,
        in_range((days * 86_400 + hours * 3_600 + minutes * 60 + seconds) * 1_000_000_000),
    ensures
        decode_spec(layout(days, hours, minutes, seconds)) == Ok::<Measurement, DecodeErr>(
            Measurement::of_nanos(
                (days * 86_400 + hours * 3_600 + minutes * 60 + seconds) * 1_000_000_000,
            ),
        ),
{
    let time = time_layout(hours, minutes, seconds);
    let text = layout(days, hours, minutes, seconds);
    let date = Measurement::of_nanos(days * 86_400_000_000_000);
    Measurement::lemma_of_nanos(days * 86_400_000_000_000);
    assert(text[0] == 'P');
    assert(text.skip(1) =~= field(days, 'D', seq!['T'] + time));
    lemma_decode_date(days, time);
    assert((seq!['T'] + time).skip(1) =~= time);
    lemma_decode_time(hours, minutes, seconds, date);
}

/// An encoding with no negative field whose fields add up to a span out of
/// range does not decode: the days, or one of the sums, are an overflow.
proof fn lemma_decode_layout_overflow(days: int, hours: int, minutes: int, seconds: int)
    requires
        0 <= days <= i64::MAX,
        0 <= hours < 24,
        0 <= minutes < 60,
        0 <= seconds < 60,
        !in_range((days * 86_400 + hours * 3_600 + minutes * 60 + seconds) * 1_000_000_000),
    ensures
        decode_spec(layout(days, hours, minutes, seconds)) == overflow::<Measurement>(),
{
    let zero = Measurement::of_nanos(0);
    Measurement::lemma_of_nanos(0);
    let end = Seq::<char>::empty();
    let from_seconds = field(seconds, 'S', end);
    let from_minutes = field(minutes, 'M', from_seconds);
    let time = time_layout(hours, minutes, seconds);
    let text = layout(days, hours, minutes, seconds);
    let in_days = days * 86_400_000_000_000;
    let in_hours = in_days + hours * 3_600_000_000_000;
    let in_minutes = in_hours + minutes * 60_000_000_000;
    assert(text[0] == 'P');
    assert(text.skip(1) =~= field(days, 'D', seq!['T'] + time));
    if !in_range(in_days) {
        lemma_component_overflow(days, 'D', 86_400_000_000_000, seq!['T'] + time, zero, true);
    } else {
        let date = Measurement::of_nanos(in_days);
        Measurement::lemma_of_nanos(in_days);
        lemma_decode_date(days, time);
        assert((seq!['T'] + time).skip(1) =~= time);
        if !in_range(in_hours) {
            lemma_component_overflow(hours, 'H', 3_600_000_000_000, from_minutes, date, false);
        } else {
            let to_hours = Measurement::of_nanos(in_hours);
            Measurement::lemma_of_nanos(in_hours);
            lemma_component(hours, 'H', 3_600_000_000_000, from_minutes, date, false);
            if !in_range(in_minutes) {
                lemma_component_overflow(
                    minutes,
                    'M',
                    60_000_000_000,
                    from_seconds,
                    to_hours,
                    false,
                );
            } else {
                let to_minutes = Measurement::of_nanos(in_minutes);
                Measurement::lemma_of_nanos(in_minutes);
                lemma_component(minutes, 'M', 60_000_000_000, from_seconds, to_hours, false);
                lemma_component_overflow(seconds, 'S', 1_000_000_000, end, to_minutes, false);
            }
        }
    }
}

/// What decoding the encoding of a measurement longer than minus one second
/// gives: the measurement of its whole seconds where that is in the range of
/// the arithmetic, and an overflow otherwise.
pub open spec fn decoded_whole_seconds(n: int) -> Result<Measurement, DecodeErr> {
    if in_range(whole_seconds(n) * NANOS_PER_SEC) {
        Ok(Measurement::of_nanos(whole_seconds(n) * NANOS_PER_SEC))
    } else {
        overflow()
    }
}

/// Decoding the encoding of a measurement longer than minus one second gives
/// the measurement's whole seconds, unless they are out of the range of the
/// arithmetic. In particular a measurement of whole seconds that is in range
/// and not negative decodes to itself.
pub proof fn lemma_decode_encode(m: Measurement)
    requires
        m.wf(),
        m@ > -NANOS_PER_SEC,
    ensures
        decode_spec(encode_spec(m@)) == decoded_whole_seconds(m@),
        in_range(m@) ==> decode_spec(encode_spec(m@)) == Ok::<Measurement, DecodeErr>(
            Measurement::of_nanos(whole_seconds(m@) * NANOS_PER_SEC),
        ),
        in_range(m@) && m@ >= 0 && m@ % (NANOS_PER_SEC as int) == 0 ==> decode_spec(
            encode_spec(m@),
        ) == Ok::<Measurement, DecodeErr>(m),
{
    let n = m@;
    m.lemma_valid();
    lemma_encode_layout(n);
    lemma_fields(n);
    let (days, hours, minutes, seconds) = fields(n);
    if in_range(whole_seconds(n) * NANOS_PER_SEC) {
        lemma_decode_layout(days, hours, minutes, seconds);
    } else {
        lemma_decode_layout_overflow(days, hours, minutes, seconds);
    }
}

/// An encoding whose fields are all zero or negative, with one negative at
/// least, does not decode: the first negative field begins with a minus
/// sign, where the decoder looks for a count.
proof fn lemma_decode_negative_layout(days: int, hours: int, minutes: int, seconds: int)
    requires
        days <= 0,
        hours <= 0,
        minutes <= 0,
        seconds <= 0,
        days + hours + minutes + seconds < 0,
    ensures
        decode_spec(layout(days, hours, minutes, seconds)) == no_count::<Measurement>(),
{
    let zero = Measurement::of_nanos(0);
    Measurement::lemma_of_nanos(0);
    let end = Seq::<char>::empty();
    let from_seconds = field(seconds, 'S', end);
    let from_minutes = field(minutes, 'M', from_seconds);
    let time = time_layout(hours, minutes, seconds);
    let text = layout(days, hours, minutes, seconds);
    assert(text[0] == 'P');
    assert(text.skip(1) =~= field(days, 'D', seq!['T'] + time));
    if days < 0 {
        lemma_negative_field(days, 'D', seq!['T'] + time, zero, true);
    } else {
        lemma_decode_date(0, time);
        assert((seq!['T'] + time).skip(1) =~= time);
        if hours < 0 {
            lemma_negative_field(hours, 'H', from_minutes, zero, false);
        } else {
            lemma_component(0, 'H', 3_600_000_000_000, from_minutes, zero, false);
            if minutes < 0 {
                lemma_negative_field(minutes, 'M', from_seconds, zero, false);
            } else {
                lemma_component(0, 'M', 60_000_000_000, from_seconds, zero, false);
                lemma_negative_field(seconds, 'S', end, zero, false);
            }
        }
    }
}

/// Decoding the encoding of a measurement of minus one second or less fails:
/// the decoder reads no minus sign.
pub proof fn lemma_decode_encode_negative(m: Measurement)
    requires
        m.wf(),
        m@ <= -NANOS_PER_SEC,
    ensures
        decode_spec(encode_spec(m@)) == no_count::<Measurement>(),
{
    let n = m@;
    lemma_encode_layout(n);
    lemma_fields(n);
    let (days, hours, minutes, seconds) = fields(n);
    lemma_decode_negative_layout(days, hours, minutes, seconds);
}

/// Encoding what an encoding decodes to gives the same text again, for every
/// measurement whose encoding can be decoded.
pub proof fn lemma_reencode(m: Measurement)
    requires
        m.wf(),
        decode_spec(encode_spec(m@)) is Ok,
    ensures
        encode_spec(decode_spec(encode_spec(m@)).unwrap()@) == encode_spec(m@),
{
    m.lemma_valid();
    if m@ > -NANOS_PER_SEC {
        lemma_decode_encode(m);
        if in_range(whole_seconds(m@) * NANOS_PER_SEC) {
            Measurement::lemma_of_nanos(whole_seconds(m@) * NANOS_PER_SEC);
        }
    } else {
        lemma_decode_encode_negative(m);
    }
}

} // verus!
