//! The calls into chrono's `TimeDelta`, the duration primitive underneath
//! [`Measurement`](crate::measurement::Measurement).
//!
//! A duration is opaque to the verifier. What chrono reports of one goes by
//! the names `seconds_of` and `subsec_of`, for seconds rounded toward zero
//! and a sub-second part of the same sign, and the duration that holds given
//! seconds and a given remainder goes by the name `time_delta_of`. Nothing in
//! this module is proved: each contract restates what chrono's source does.

use vstd::prelude::*;

verus! {

/// chrono's `TimeDelta`, opaque to the verifier.
#[verifier::external_type_specification]
#[verifier::external_body]
pub struct ExTimeDelta(chrono::TimeDelta);

/// What `TimeDelta::num_seconds` returns for a duration: its whole seconds,
/// rounded toward zero.
pub uninterp spec fn seconds_of(d: chrono::TimeDelta) -> i64;

/// What `TimeDelta::subsec_nanos` returns for a duration: the nanoseconds
/// beside its whole seconds.
pub uninterp spec fn subsec_of(d: chrono::TimeDelta) -> i32;

/// The duration that holds the given seconds, rounded toward negative
/// infinity, and the given nanosecond remainder. It is what `TimeDelta::new`
/// returns, inside its `Some`, where it returns one.
pub uninterp spec fn time_delta_of(secs: i64, nanos: u32) -> chrono::TimeDelta;

/// The length of a duration in nanoseconds.
pub open spec fn length_of(d: chrono::TimeDelta) -> int {
    seconds_of(d) * 1_000_000_000 + subsec_of(d)
}

/// The largest span that chrono's constructors and its addition and
/// subtraction give, in nanoseconds: `i64::MAX` milliseconds. Only its
/// multiplication gives a longer one.
pub const MAX_NANOS: i128 = 9_223_372_036_854_775_807_000_000;

/// Whether a nanosecond count lies in this range, which is symmetric around
/// zero.
pub open spec fn in_range(n: int) -> bool {
    -MAX_NANOS <= n <= MAX_NANOS
}

/// The nanoseconds denoted by floored seconds and a remainder.
pub open spec fn floored(secs: i64, nanos: u32) -> int {
    secs * 1_000_000_000 + nanos
}

/// Whether floored seconds and a remainder denote a span in range.
pub open spec fn floored_ok(secs: i64, nanos: u32) -> bool {
    nanos < 1_000_000_000 && in_range(floored(secs, nanos))
}

/// A span of `n` nanoseconds as floored seconds and a remainder.
pub open spec fn floor_parts(n: int) -> (i64, u32) {
    ((n / 1_000_000_000) as i64, (n % 1_000_000_000) as u32)
}

/// The floored seconds of a duration, which are the seconds it holds.
pub open spec fn floor_seconds_of(d: chrono::TimeDelta) -> int {
    length_of(d) / 1_000_000_000
}

/// The nanoseconds that truncated seconds and a sub-second part add up to.
pub open spec fn whole(parts: (i64, i32)) -> int {
    parts.0 * 1_000_000_000 + parts.1
}

/// Whether `parts` is the span of `n` nanoseconds as truncated seconds and a
/// sub-second part: the two add up to `n`, the sub-second part is shorter than
/// a second, and neither has the opposite sign of `n`.
pub open spec fn splits(n: int, parts: (i64, i32)) -> bool {
    &&& n == whole(parts)
    &&& -1_000_000_000 < parts.1 < 1_000_000_000
    &&& n >= 0 ==> parts.0 >= 0 && parts.1 >= 0
    &&& n <= 0 ==> parts.0 <= 0 && parts.1 <= 0
}

/// What holds of every duration, in range or not: its whole seconds and its
/// sub-second part are the parts of its length, the seconds it holds are
/// above `i64::MIN`, and it is the duration that holds its own floored
/// seconds and remainder. A duration is its seconds and its nanoseconds and
/// nothing else.
pub open spec fn proper(d: chrono::TimeDelta) -> bool {
    &&& splits(length_of(d), (seconds_of(d), subsec_of(d)))
    &&& i64::MIN < floor_seconds_of(d)
    &&& d == time_delta_of(floor_parts(length_of(d)).0, floor_parts(length_of(d)).1)
}

/// Whether `parts` is what chrono reports of the duration `d`, which goes
/// with everything that holds of a duration.
pub open spec fn reports(d: chrono::TimeDelta, parts: (i64, i32)) -> bool {
    parts == (seconds_of(d), subsec_of(d)) && proper(d)
}

/// What a range-checked operation with the exact result `n` returns: the
/// duration of length `n` when `n` is in range, nothing otherwise.
pub open spec fn checked(n: int, r: Option<chrono::TimeDelta>) -> bool {
    match r {
        Some(d) => in_range(n) && length_of(d) == n,
        None => !in_range(n),
    }
}

/// The whole seconds in `n` nanoseconds, rounded toward zero.
pub open spec fn whole_seconds(n: int) -> int {
    if n >= 0 {
        n / 1_000_000_000
    } else {
        -((-n) / 1_000_000_000)
    }
}

/// `TimeDelta::checked_add`: the sum of two durations, or `None` when it is
/// out of range. chrono adds the seconds before it looks at the range, and
/// may add one more for the nanoseconds, so the seconds have to add up
/// within an `i64`.
#[verifier::external_body]
pub(crate) fn checked_add(a: &chrono::TimeDelta, b: &chrono::TimeDelta) -> (r: Option<
    chrono::TimeDelta,
>)
    requires
        proper(*a),
        proper(*b),
        i64::MIN <= floor_seconds_of(*a) + floor_seconds_of(*b) < i64::MAX,
    ensures
        checked(length_of(*a) + length_of(*b), r),
{
    a.checked_add(b)
}

/// `TimeDelta::checked_sub`: the difference of two durations, or `None` when
/// it is out of range. chrono subtracts the seconds before it looks at the
/// range, and may take one more for the nanoseconds, so the seconds have to
/// differ within an `i64`.
#[verifier::external_body]
pub(crate) fn checked_sub(a: &chrono::TimeDelta, b: &chrono::TimeDelta) -> (r: Option<
    chrono::TimeDelta,
>)
    requires
        proper(*a),
        proper(*b),
        i64::MIN < floor_seconds_of(*a) - floor_seconds_of(*b) <= i64::MAX,
    ensures
        checked(length_of(*a) - length_of(*b), r),
{
    a.checked_sub(b)
}

/// `TimeDelta::num_nanoseconds`: the length as a nanosecond count, or `None`
/// when the count does not fit in an `i64`.
#[verifier::external_body]
pub(crate) fn num_nanoseconds(d: &chrono::TimeDelta) -> (r: Option<i64>)
    ensures
        match r {
            Some(n) => n == length_of(*d),
            None => length_of(*d) < i64::MIN || length_of(*d) > i64::MAX,
        },
{
    d.num_nanoseconds()
}

/// `TimeDelta::num_seconds`: the whole seconds of the duration, rounded
/// toward zero.
#[verifier::external_body]
pub(crate) fn num_seconds(d: &chrono::TimeDelta) -> (r: i64)
    ensures
        r == seconds_of(*d),
{
    d.num_seconds()
}

/// `TimeDelta::try_weeks`: a duration of whole weeks of seven days, or `None`
/// when it is out of range.
#[verifier::external_body]
pub(crate) fn try_weeks(weeks: i64) -> (r: Option<chrono::TimeDelta>)
    ensures
        checked(weeks * 604_800_000_000_000, r),
{
    chrono::TimeDelta::try_weeks(weeks)
}

/// `TimeDelta::try_days`: a duration of whole days of 24 hours, or `None`
/// when it is out of range.
#[verifier::external_body]
pub(crate) fn try_days(days: i64) -> (r: Option<chrono::TimeDelta>)
    ensures
        checked(days * 86_400_000_000_000, r),
{
    chrono::TimeDelta::try_days(days)
}

/// `TimeDelta::try_hours`: a duration of whole hours, or `None` when it is
/// out of range.
#[verifier::external_body]
pub(crate) fn try_hours(hours: i64) -> (r: Option<chrono::TimeDelta>)
    ensures
        checked(hours * 3_600_000_000_000, r),
{
    chrono::TimeDelta::try_hours(hours)
}

/// `TimeDelta::try_minutes`: a duration of whole minutes, or `None` when it
/// is out of range.
#[verifier::external_body]
pub(crate) fn try_minutes(minutes: i64) -> (r: Option<chrono::TimeDelta>)
    ensures
        checked(minutes * 60_000_000_000, r),
{
    chrono::TimeDelta::try_minutes(minutes)
}

/// `TimeDelta::try_seconds`: a duration of whole seconds, or `None` when it
/// is out of range.
#[verifier::external_body]
pub(crate) fn try_seconds(seconds: i64) -> (r: Option<chrono::TimeDelta>)
    ensures
        checked(seconds * 1_000_000_000, r),
{
    chrono::TimeDelta::try_seconds(seconds)
}

/// `TimeDelta::num_seconds` and `TimeDelta::subsec_nanos` of any duration:
/// the two parts of its length. The length need not be in range, since
/// chrono's multiplication can step outside it.
#[verifier::external_body]
pub(crate) fn parts_of(d: &chrono::TimeDelta) -> (parts: (i64, i32))
    ensures
        parts == (seconds_of(*d), subsec_of(*d)),
        reports(*d, parts),
{
    (d.num_seconds(), d.subsec_nanos())
}

/// `TimeDelta::new` on a span in range, where it does not fail: the duration
/// that holds these seconds and this remainder.
#[verifier::external_body]
pub(crate) fn to_time_delta(secs: i64, nanos: u32) -> (d: chrono::TimeDelta)
    requires
        floored_ok(secs, nanos),
    ensures
        d == time_delta_of(secs, nanos),
        length_of(d) == floored(secs, nanos),
        proper(d),
{
    chrono::TimeDelta::new(secs, nanos).unwrap()
}

} // verus!
