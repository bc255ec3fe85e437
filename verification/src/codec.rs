//! The textual duration codec: a measurement as `P<days>DT<hours>H<minutes>M<seconds>S`.
//!
//! The encoder always writes the four fields, in that order, and drops what is
//! finer than a second. The decoder takes more than the encoder writes: any
//! number of `<count><unit>` components before the `T` and any number after
//! it, in any order, with the units `W`, `D`, `H`, `M` and `S`.

use crate::decimal::{digit_run, parse_count, push_signed_decimal, read_count, signed_decimal};
use crate::error::{DecodeErr, MeasureErr};
use crate::measurement::{
    Measurement, NANOS_PER_DAY, NANOS_PER_HOUR, NANOS_PER_MIN, NANOS_PER_SEC, NANOS_PER_WEEK,
};
use crate::timedelta::{in_range, whole_seconds};
use vstd::prelude::*;
use vstd::string::*;

verus! {

/// Seconds in one minute.
pub const SECS_PER_MIN: i64 = 60;

/// Seconds in one hour.
pub const SECS_PER_HOUR: i64 = 3_600;

/// Seconds in one day of 24 hours.
pub const SECS_PER_DAY: i64 = 86_400;

/// The quotient of `a` by a positive `b`, rounded toward zero.
pub open spec fn quotient_toward_zero(a: int, b: int) -> int {
    if a >= 0 {
        a / b
    } else {
        -((-a) / b)
    }
}

/// The fields of the encoding of a span of `n` nanoseconds: days, hours,
/// minutes and seconds.
///
/// The whole seconds of the span, rounded toward zero, are split into days,
/// then hours of what the days leave, then minutes of what the hours leave,
/// then the seconds left over. The fields add up to the whole seconds, and
/// none has the opposite sign of the span.
pub open spec fn fields(n: int) -> (int, int, int, int) {
    let total = whole_seconds(n);
    let days = quotient_toward_zero(total, SECS_PER_DAY as int);
    let in_day = total - days * SECS_PER_DAY;
    let hours = quotient_toward_zero(in_day, SECS_PER_HOUR as int);
    let in_hour = in_day - hours * SECS_PER_HOUR;
    let minutes = quotient_toward_zero(in_hour, SECS_PER_MIN as int);
    let seconds = in_hour - minutes * SECS_PER_MIN;
    (days, hours, minutes, seconds)
}

/// The fields of a span add up to its whole seconds, so the encoding loses
/// nothing but what is finer than a second. No field has the opposite sign
/// of the span, and the hours, minutes and seconds stay below one day, one
/// hour and one minute.
pub proof fn lemma_fields(n: int)
    ensures
        ({
            let (days, hours, minutes, seconds) = fields(n);
            &&& whole_seconds(n) == days * SECS_PER_DAY + hours * SECS_PER_HOUR + minutes
                * SECS_PER_MIN + seconds
            &&& n > -NANOS_PER_SEC ==> 0 <= days && 0 <= hours < 24 && 0 <= minutes < 60 && 0
                <= seconds < 60
            &&& n <= -NANOS_PER_SEC ==> days <= 0 && -24 < hours <= 0 && -60 < minutes <= 0
                && -60 < seconds <= 0 && whole_seconds(n) < 0
        }),
{
}

/// The encoding of a span of `n` nanoseconds: `P`, the days and `D`, `T`, the
/// hours and `H`, the minutes and `M`, the seconds and `S`. Each field is
/// written as a signed numeral, so the fields of a negative span carry their
/// own minus signs.
pub open spec fn encode_spec(n: int) -> Seq<char> {
    let (days, hours, minutes, seconds) = fields(n);
    seq!['P'] + signed_decimal(days) + seq!['D', 'T'] + signed_decimal(hours) + seq!['H']
        + signed_decimal(minutes) + seq!['M'] + signed_decimal(seconds) + seq!['S']
}

/// The nanoseconds in one unit of the grammar, for a letter that names a
/// unit.
pub open spec fn unit_nanos(unit: char) -> Option<int> {
    if unit == 'W' {
        Some(NANOS_PER_WEEK as int)
    } else if unit == 'D' {
        Some(NANOS_PER_DAY as int)
    } else if unit == 'H' {
        Some(NANOS_PER_HOUR as int)
    } else if unit == 'M' {
        Some(NANOS_PER_MIN as int)
    } else if unit == 'S' {
        Some(NANOS_PER_SEC as int)
    } else {
        None
    }
}

/// The span that one component stands for: `count` times the unit, where
/// the letter names a unit and the span is in range.
pub open spec fn component_spec(unit: char, count: int) -> Result<Measurement, DecodeErr> {
    match unit_nanos(unit) {
        None => Err(DecodeErr::UnknownUnit { unit }),
        Some(per_unit) => if in_range(count * per_unit) {
            Ok(Measurement::of_nanos(count * per_unit))
        } else {
            Err(DecodeErr::Measure(MeasureErr::Overflow))
        },
    }
}

/// Reads components off the front of `s` and adds them to `total`, up to the
/// end of `s` or, in the date part, up to the first `T` that stands where a
/// component would begin. Gives the sum and what is left of `s`.
///
/// Each component is a count and a unit letter. The first failure ends the
/// reading: a count that cannot be read, a missing or unknown unit letter, a
/// component out of range, or a sum out of range, looked for in this order.
pub open spec fn components_spec(s: Seq<char>, total: Measurement, date_part: bool) -> Result<
    (Measurement, Seq<char>),
    DecodeErr,
>
    decreases s.len(),
{
    let after_count = digit_run(s) as int;
    if s.len() == 0 || (date_part && s[0] == 'T') {
        Ok((total, s))
    } else {
        match read_count(s) {
            Err(kind) => Err(DecodeErr::Measure(MeasureErr::ParseIntError(kind))),
            Ok(count) => if after_count >= s.len() {
                Err(DecodeErr::MissingUnit)
            } else {
                match component_spec(s[after_count], count as int) {
                    Err(e) => Err(e),
                    Ok(part) => match total.checked_sum(part) {
                        Err(e) => Err(DecodeErr::Measure(e)),
                        Ok(sum) => components_spec(s.skip(after_count + 1), sum, date_part),
                    },
                }
            },
        }
    }
}

/// The decoding of a text.
///
/// The text has to begin with `P`. The components up to the `T` and the
/// components after it are added up from zero; a `T` has to follow the date
/// part. Nothing is returned for a text that fails anywhere.
pub open spec fn decode_spec(s: Seq<char>) -> Result<Measurement, DecodeErr> {
    if s.len() == 0 || s[0] != 'P' {
        Err(DecodeErr::MissingDesignator)
    } else {
        match components_spec(s.skip(1), Measurement::of_nanos(0), true) {
            Err(e) => Err(e),
            Ok((date, rest)) => if rest.len() == 0 {
                Err(DecodeErr::MissingTimeSeparator)
            } else {
                match components_spec(rest.skip(1), date, false) {
                    Err(e) => Err(e),
                    Ok((total, _)) => Ok(total),
                }
            },
        }
    }
}

/// The characters of a string slice, in order.
fn chars_of(text: &str) -> (chars: Vec<char>)
    ensures
        chars@ == text@,
{
    broadcast use vstd::string::group_string_axioms;

    let mut chars: Vec<char> = Vec::new();
    for c in iter: text.chars()
        invariant
            iter.seq() == text@,
            chars@ == iter.seq().take(iter.index()),
    {
        chars.push(c);
    }
    chars
}

/// The span of `count` units of the unit that `unit` names.
fn component(unit: char, count: i64) -> (part: Result<Measurement, DecodeErr>)
    ensures
        part == component_spec(unit, count as int),
{
    let span = if unit == 'W' {
        Measurement::try_weeks(count)
    } else if unit == 'D' {
        Measurement::try_days(count)
    } else if unit == 'H' {
        Measurement::try_hours(count)
    } else if unit == 'M' {
        Measurement::try_minutes(count)
    } else if unit == 'S' {
        Measurement::try_seconds(count)
    } else {
        return Err(DecodeErr::UnknownUnit { unit });
    };
    match span {
        Some(part) => Ok(part),
        None => Err(DecodeErr::Measure(MeasureErr::Overflow)),
    }
}

/// Reads the components that start at `chars[start]` and adds them to
/// `total`. Gives the sum and the index where the reading stopped: the end of
/// `chars` or, in the date part, the `T`.
fn read_components(chars: &Vec<char>, start: usize, total: Measurement, date_part: bool) -> (r:
    Result<(Measurement, usize), DecodeErr>)
    requires
        start <= chars.len(),
    ensures
        match r {
            Ok((sum, end)) => {
                &&& start <= end <= chars.len()
                &&& components_spec(chars@.skip(start as int), total, date_part) == Ok::<
                    (Measurement, Seq<char>),
                    DecodeErr,
                >((sum, chars@.skip(end as int)))
            },
            Err(e) => components_spec(chars@.skip(start as int), total, date_part) == Err::<
                (Measurement, Seq<char>),
                DecodeErr,
            >(e),
        },
{
    let mut pos = start;
    let mut sum = total;
    while pos < chars.len() && !(date_part && chars[pos] == 'T')
        invariant
            start <= pos <= chars.len(),
            components_spec(chars@.skip(start as int), total, date_part) == components_spec(
                chars@.skip(pos as int),
                sum,
                date_part,
            ),
        decreases chars.len() - pos,
    {
        let ghost s = chars@.skip(pos as int);
        assert(s.len() > 0 && s[0] == chars@[pos as int]);
        let (count, end) = match parse_count(chars, pos) {
            Ok(read) => read,
            Err(kind) => {
                return Err(DecodeErr::Measure(MeasureErr::ParseIntError(kind)));
            },
        };
        if end >= chars.len() {
            return Err(DecodeErr::MissingUnit);
        }
        assert(s[end - pos] == chars@[end as int]);
        let part = match component(chars[end], count) {
            Ok(part) => part,
            Err(e) => {
                return Err(e);
            },
        };
        sum = match sum + part {
            Ok(sum) => sum,
            Err(e) => {
                return Err(DecodeErr::Measure(e));
            },
        };
        assert(s.skip(end - pos + 1) =~= chars@.skip(end + 1));
        pos = end + 1;
    }
    Ok((sum, pos))
}

impl Measurement {
    /// Writes the measurement as `P<days>DT<hours>H<minutes>M<seconds>S`,
    /// with every field present. What is finer than a second is dropped.
    pub fn encode(&self) -> (text: String)
        ensures
            text@ == encode_spec(self@),
    {
        let total = self.num_seconds();
        let days = total / SECS_PER_DAY;
        let in_day = total - days * SECS_PER_DAY;
        let hours = in_day / SECS_PER_HOUR;
        let in_hour = in_day - hours * SECS_PER_HOUR;
        let minutes = in_hour / SECS_PER_MIN;
        let seconds = in_hour - minutes * SECS_PER_MIN;
        let mut text = String::new();
        text.append("P");
        push_signed_decimal(&mut text, days);
        text.append("DT");
        push_signed_decimal(&mut text, hours);
        text.append("H");
        push_signed_decimal(&mut text, minutes);
        text.append("M");
        push_signed_decimal(&mut text, seconds);
        text.append("S");
        proof {
            reveal_strlit("P");
            reveal_strlit("DT");
            reveal_strlit("H");
            reveal_strlit("M");
            reveal_strlit("S");
            assert(text@ =~= encode_spec(self@));
        }
        text
    }

    /// Reads a measurement from a text of the form
    /// `P<components>T<components>`, where a component is an unsigned count
    /// and one of the unit letters `W`, `D`, `H`, `M`, `S`. The measurement is
    /// the sum of the components.
    pub fn decode(text: &str) -> (r: Result<Measurement, DecodeErr>)
        ensures
            r == decode_spec(text@),
    {
        let chars = chars_of(text);
        if chars.len() == 0 || chars[0] != 'P' {
            return Err(DecodeErr::MissingDesignator);
        }
        let (date, separator) = match read_components(&chars, 1, Measurement::zero(), true) {
            Ok(read) => read,
            Err(e) => {
                return Err(e);
            },
        };
        if separator >= chars.len() {
            return Err(DecodeErr::MissingTimeSeparator);
        }
        assert(chars@.skip(separator as int).skip(1) =~= chars@.skip(separator + 1));
        match read_components(&chars, separator + 1, date, false) {
            Ok((total, _)) => Ok(total),
            Err(e) => Err(e),
        }
    }
}

} // verus!
