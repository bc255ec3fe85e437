//! The human-readable rendering of a measurement in its two coarsest units.

use crate::decimal::{decimal, push_decimal};
use crate::measurement::Measurement;
use vstd::prelude::*;
use vstd::string::*;

verus! {

/// Nanoseconds in one microsecond.
pub const NS_PER_US: u64 = 1_000;

/// Nanoseconds in one millisecond.
pub const NS_PER_MS: u64 = 1_000_000;

/// Nanoseconds in one second.
pub const NS_PER_SEC: u64 = 1_000_000_000;

/// Nanoseconds in one minute.
pub const NS_PER_MIN: u64 = 60_000_000_000;

/// Nanoseconds in one hour.
pub const NS_PER_HOUR: u64 = 3_600_000_000_000;

/// The magnitude of a nanosecond count: the count without its sign.
pub open spec fn magnitude(n: int) -> nat {
    if n < 0 {
        (-n) as nat
    } else {
        n as nat
    }
}

/// A count with its unit label: the numeral, a space, the label.
pub open spec fn in_unit(count: nat, unit: Seq<char>) -> Seq<char> {
    decimal(count) + " "@ + unit
}

/// A count in a unit, followed by the count in the next finer unit unless
/// that one is zero.
pub open spec fn in_two_units(
    primary: nat,
    unit: Seq<char>,
    secondary: nat,
    finer_unit: Seq<char>,
) -> Seq<char> {
    if secondary > 0 {
        in_unit(primary, unit) + " "@ + in_unit(secondary, finer_unit)
    } else {
        in_unit(primary, unit)
    }
}

/// The rendering of a magnitude of `c` nanoseconds.
///
/// The magnitude falls into the first of these buckets whose bound it is
/// strictly below: nanoseconds (1,000 ns), microseconds (1,000,000 ns),
/// milliseconds (one second), seconds (one minute), minutes (one hour), and
/// hours above that. It is shown as the whole number of the bucket's unit
/// and, where that is not zero, the whole number of the next finer unit in
/// what is left over. Anything finer than that is dropped.
pub open spec fn magnitude_text(c: nat) -> Seq<char> {
    if c < NS_PER_US {
        in_unit(c, "ns"@)
    } else if c < NS_PER_MS {
        in_two_units(c / (NS_PER_US as nat), "µs"@, c % (NS_PER_US as nat), "ns"@)
    } else if c < NS_PER_SEC {
        in_two_units(
            c / (NS_PER_MS as nat),
            "ms"@,
            (c % (NS_PER_MS as nat)) / (NS_PER_US as nat),
            "µs"@,
        )
    } else if c < NS_PER_MIN {
        in_two_units(
            c / (NS_PER_SEC as nat),
            "s"@,
            (c % (NS_PER_SEC as nat)) / (NS_PER_MS as nat),
            "ms"@,
        )
    } else if c < NS_PER_HOUR {
        in_two_units(
            c / (NS_PER_MIN as nat),
            "m"@,
            (c % (NS_PER_MIN as nat)) / (NS_PER_SEC as nat),
            "s"@,
        )
    } else {
        in_two_units(
            c / (NS_PER_HOUR as nat),
            "h"@,
            (c % (NS_PER_HOUR as nat)) / (NS_PER_MIN as nat),
            "m"@,
        )
    }
}

/// The rendering of a span of `n` nanoseconds.
///
/// A span whose nanosecond count does not fit in an `i64` renders as
/// `overflow`. Any other renders as its magnitude, with a minus sign in
/// front where the span is negative.
pub open spec fn format_spec(n: int) -> Seq<char> {
    if n < i64::MIN || n > i64::MAX {
        "overflow"@
    } else if n < 0 {
        "-"@ + magnitude_text(magnitude(n))
    } else {
        magnitude_text(magnitude(n))
    }
}

/// Appends a count with its unit label to `out`.
fn push_in_unit(out: &mut String, count: u64, unit: &str)
    ensures
        final(out)@ == old(out)@ + in_unit(count as nat, unit@),
{
    push_decimal(out, count);
    out.append(" ");
    out.append(unit);
    assert(old(out)@ + decimal(count as nat) + " "@ + unit@ =~= old(out)@ + in_unit(
        count as nat,
        unit@,
    ));
}

/// Appends a count in a unit, followed by the count in the next finer unit
/// unless that one is zero.
fn push_two_units(out: &mut String, primary: u64, unit: &str, secondary: u64, finer_unit: &str)
    ensures
        final(out)@ == old(out)@ + in_two_units(
            primary as nat,
            unit@,
            secondary as nat,
            finer_unit@,
        ),
{
    push_in_unit(out, primary, unit);
    if secondary > 0 {
        out.append(" ");
        push_in_unit(out, secondary, finer_unit);
    }
    assert(out@ =~= old(out)@ + in_two_units(
        primary as nat,
        unit@,
        secondary as nat,
        finer_unit@,
    ));
}

/// Appends the rendering of a magnitude of `count` nanoseconds.
fn push_magnitude(out: &mut String, count: u64)
    ensures
        final(out)@ == old(out)@ + magnitude_text(count as nat),
{
    if count < NS_PER_US {
        push_two_units(out, count, "ns", 0, "");
    } else if count < NS_PER_MS {
        push_two_units(out, count / NS_PER_US, "µs", count % NS_PER_US, "ns");
    } else if count < NS_PER_SEC {
        push_two_units(out, count / NS_PER_MS, "ms", (count % NS_PER_MS) / NS_PER_US, "µs");
    } else if count < NS_PER_MIN {
        push_two_units(out, count / NS_PER_SEC, "s", (count % NS_PER_SEC) / NS_PER_MS, "ms");
    } else if count < NS_PER_HOUR {
        push_two_units(out, count / NS_PER_MIN, "m", (count % NS_PER_MIN) / NS_PER_SEC, "s");
    } else {
        push_two_units(out, count / NS_PER_HOUR, "h", (count % NS_PER_HOUR) / NS_PER_MIN, "m");
    }
}

impl Measurement {
    /// Renders the measurement for a reader, in the two coarsest units that
    /// apply, such as `3 h 3 m`, with a minus sign in front of a negative
    /// one. This never fails: a span too long to count in nanoseconds
    /// renders as `overflow`.
    pub fn format(&self) -> (text: String)
        ensures
            text@ == format_spec(self@),
    {
        match self.num_nanoseconds() {
            None => "overflow".to_owned(),
            Some(nanos) => {
                let mut text = String::new();
                if nanos < 0 {
                    text.append("-");
                    let count: u64 = if nanos == i64::MIN {
                        9_223_372_036_854_775_808u64
                    } else {
                        (-nanos) as u64
                    };
                    push_magnitude(&mut text, count);
                } else {
                    push_magnitude(&mut text, nanos as u64);
                }
                assert(text@ =~= format_spec(self@));
                text
            },
        }
    }
}

} // verus!
