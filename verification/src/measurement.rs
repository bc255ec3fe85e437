//! The measurement value type and its checked arithmetic.

use crate::error::{MeasureErr, MeasureResult};
use crate::timedelta;
use crate::timedelta::{floor_parts, in_range, length_of, whole_seconds, MAX_NANOS};
use core::cmp::Ordering;
use vstd::prelude::*;
use vstd::std_specs::cmp::PartialOrdSpec;
use vstd::std_specs::convert::FromSpecImpl;
use vstd::std_specs::ops::{AddSpecImpl, SubSpecImpl};

verus! {

/// Nanoseconds in one second.
pub const NANOS_PER_SEC: i64 = 1_000_000_000;

/// Nanoseconds in one minute.
pub const NANOS_PER_MIN: i64 = 60_000_000_000;

/// Nanoseconds in one hour.
pub const NANOS_PER_HOUR: i64 = 3_600_000_000_000;

/// Nanoseconds in one day of 24 hours.
pub const NANOS_PER_DAY: i64 = 86_400_000_000_000;

/// Nanoseconds in one week of seven days.
pub const NANOS_PER_WEEK: i64 = 604_800_000_000_000;

/// An elapsed span of time with nanosecond resolution, positive or negative.
///
/// A measurement wraps a chrono duration and keeps it as it is. Beside it
/// the measurement holds the duration's length as plain numbers: whole
/// seconds rounded toward negative infinity and a non-negative nanosecond
/// remainder. Every length has exactly one such representation, so comparing
/// the two numbers in this order compares measurements by their length.
#[derive(Clone, Copy, Debug, Eq, Ord, Hash)]
pub struct Measurement {
    secs: i64,
    nanos: u32,
    duration: chrono::TimeDelta,
}

impl View for Measurement {
    type V = int;

    /// The measurement as a signed count of nanoseconds, which is the length
    /// of the duration it wraps.
    closed spec fn view(&self) -> int {
        self.secs * 1_000_000_000 + self.nanos
    }
}

impl Measurement {
    /// Validity of the representation: the remainder is below one second,
    /// and the duration is the one that holds these seconds and this
    /// remainder.
    pub closed spec fn wf(self) -> bool {
        &&& self.nanos < 1_000_000_000
        &&& self.duration == timedelta::time_delta_of(self.secs, self.nanos)
    }

    /// What holds of every measurement that exists at run time: it is valid,
    /// and the duration it wraps is a duration of chrono's whose length is
    /// the measurement's.
    #[verifier::type_invariant]
    pub closed spec fn wraps_duration(self) -> bool {
        &&& self.wf()
        &&& timedelta::proper(self.duration)
        &&& length_of(self.duration) == self@
    }

    /// The measurement of `n` nanoseconds.
    pub closed spec fn of_nanos(n: int) -> Measurement {
        Measurement {
            secs: floor_parts(n).0,
            nanos: floor_parts(n).1,
            duration: timedelta::time_delta_of(floor_parts(n).0, floor_parts(n).1),
        }
    }

    /// The measurement that wraps the duration `d`.
    pub closed spec fn of_duration(d: chrono::TimeDelta) -> Measurement {
        Measurement {
            secs: floor_parts(length_of(d)).0,
            nanos: floor_parts(length_of(d)).1,
            duration: d,
        }
    }

    /// The duration that the measurement wraps.
    pub closed spec fn duration(self) -> chrono::TimeDelta {
        self.duration
    }

    /// The nanosecond count in range that is nearest to `n`.
    pub open spec fn nearest_in_range(n: int) -> int {
        if n > MAX_NANOS {
            MAX_NANOS as int
        } else if n < -MAX_NANOS {
            -MAX_NANOS
        } else {
            n
        }
    }

    /// What a constructor from a nanosecond count `n` returns: the
    /// measurement of `n` where `n` is in range.
    pub open spec fn checked_of_nanos(n: int) -> Option<Measurement> {
        if in_range(n) {
            Some(Measurement::of_nanos(n))
        } else {
            None
        }
    }

    /// What `self + rhs` returns: the measurement of the two lengths added
    /// up, or `Overflow` when that is out of range on either side.
    pub open spec fn checked_sum(self, rhs: Measurement) -> MeasureResult<Measurement> {
        if in_range(self@ + rhs@) {
            Ok(Measurement::of_nanos(self@ + rhs@))
        } else {
            Err(MeasureErr::Overflow)
        }
    }

    /// What `self - rhs` returns: the measurement of the difference of the
    /// two lengths, or `Underflow` when that is out of range on either side.
    pub open spec fn checked_difference(self, rhs: Measurement) -> MeasureResult<Measurement> {
        if in_range(self@ - rhs@) {
            Ok(Measurement::of_nanos(self@ - rhs@))
        } else {
            Err(MeasureErr::Underflow)
        }
    }

    /// Within the range, `of_nanos` makes a valid measurement of exactly the
    /// given length.
    pub proof fn lemma_of_nanos(n: int)
        requires
            in_range(n),
        ensures
            Measurement::of_nanos(n).wf(),
            Measurement::of_nanos(n)@ == n,
    {
    }

    /// A valid measurement is determined by its length, and its whole
    /// seconds fit in an `i64`.
    pub proof fn lemma_valid(self)
        requires
            self.wf(),
        ensures
            Measurement::of_nanos(self@) == self,
            i64::MIN <= whole_seconds(self@) <= i64::MAX,
    {
    }

    /// A measurement that wraps a duration is valid, is as long as the
    /// duration, and is the measurement that wraps it.
    pub proof fn lemma_wraps_duration(self)
        requires
            self.wraps_duration(),
        ensures
            self.wf(),
            self@ == length_of(self.duration()),
            Measurement::of_duration(self.duration()) == self,
    {
    }

    /// The measurement that wraps a duration wraps that duration, and where
    /// the duration is one of chrono's it is as long as the duration.
    pub proof fn lemma_of_duration(d: chrono::TimeDelta)
        ensures
            Measurement::of_duration(d).duration() == d,
            timedelta::proper(d) ==> Measurement::of_duration(d).wraps_duration()
                && Measurement::of_duration(d)@ == length_of(d),
    {
    }

    /// The additive identity.
    pub fn zero() -> (m: Self)
        ensures
            m == Measurement::of_nanos(0),
    {
        Measurement::in_range_from(0, 0)
    }

    /// The measurement of floored seconds and a remainder that denote a span
    /// in range.
    fn in_range_from(secs: i64, nanos: u32) -> (m: Self)
        requires
            timedelta::floored_ok(secs, nanos),
        ensures
            m == Measurement::of_nanos(timedelta::floored(secs, nanos)),
    {
        Measurement { secs, nanos, duration: timedelta::to_time_delta(secs, nanos) }
    }

    /// The measurement of `seconds` seconds and `nanos` nanoseconds, which
    /// may be of either sign each. Where the two add up to a span out of
    /// range, this is the limit of the range on that side: chrono makes no
    /// duration out of range from numbers.
    pub fn from_parts(seconds: i64, nanos: i32) -> (m: Self)
        ensures
            m == Measurement::of_nanos(
                Measurement::nearest_in_range(seconds * NANOS_PER_SEC + nanos),
            ),
    {
        let sum: i128 = seconds as i128 * 1_000_000_000 + nanos as i128;
        let total: i128 = if sum > MAX_NANOS {
            MAX_NANOS
        } else if sum < -MAX_NANOS {
            -MAX_NANOS
        } else {
            sum
        };
        let whole: i128 = total / 1_000_000_000;
        let rest: i128 = total % 1_000_000_000;
        if rest < 0 {
            Measurement::in_range_from((whole - 1) as i64, (rest + 1_000_000_000) as u32)
        } else {
            Measurement::in_range_from(whole as i64, rest as u32)
        }
    }

    /// A span of whole weeks of seven days, if it is in range.
    pub fn try_weeks(weeks: i64) -> (m: Option<Measurement>)
        ensures
            m == Measurement::checked_of_nanos(weeks * NANOS_PER_WEEK),
    {
        Measurement::from_checked(
            Ghost(weeks * NANOS_PER_WEEK),
            timedelta::try_weeks(weeks),
        )
    }

    /// A span of whole days of 24 hours, if it is in range.
    pub fn try_days(days: i64) -> (m: Option<Measurement>)
        ensures
            m == Measurement::checked_of_nanos(days * NANOS_PER_DAY),
    {
        Measurement::from_checked(Ghost(days * NANOS_PER_DAY), timedelta::try_days(days))
    }

    /// A span of whole hours, if it is in range.
    pub fn try_hours(hours: i64) -> (m: Option<Measurement>)
        ensures
            m == Measurement::checked_of_nanos(hours * NANOS_PER_HOUR),
    {
        Measurement::from_checked(
            Ghost(hours * NANOS_PER_HOUR),
            timedelta::try_hours(hours),
        )
    }

    /// A span of whole minutes, if it is in range.
    pub fn try_minutes(minutes: i64) -> (m: Option<Measurement>)
        ensures
            m == Measurement::checked_of_nanos(minutes * NANOS_PER_MIN),
    {
        Measurement::from_checked(
            Ghost(minutes * NANOS_PER_MIN),
            timedelta::try_minutes(minutes),
        )
    }

    /// A span of whole seconds, if it is in range.
    pub fn try_seconds(seconds: i64) -> (m: Option<Measurement>)
        ensures
            m == Measurement::checked_of_nanos(seconds * NANOS_PER_SEC),
    {
        Measurement::from_checked(
            Ghost(seconds * NANOS_PER_SEC),
            timedelta::try_seconds(seconds),
        )
    }

    /// The span as a count of nanoseconds, where the count fits in an `i64`.
    pub fn num_nanoseconds(&self) -> (count: Option<i64>)
        ensures
            count == (if i64::MIN <= self@ <= i64::MAX {
                Some(self@ as i64)
            } else {
                None
            }),
    {
        proof {
            use_type_invariant(self);
        }
        timedelta::num_nanoseconds(&self.duration)
    }

    /// The whole seconds in the span, rounded toward zero.
    pub fn num_seconds(&self) -> (seconds: i64)
        ensures
            seconds == whole_seconds(self@),
    {
        proof {
            use_type_invariant(self);
        }
        timedelta::num_seconds(&self.duration)
    }

    /// The measurement that wraps the duration `d`.
    fn wrap(d: chrono::TimeDelta) -> (m: Measurement)
        ensures
            m == Measurement::of_duration(d),
            m@ == length_of(d),
    {
        let parts = timedelta::parts_of(&d);
        if parts.1 < 0 {
            Measurement { secs: parts.0 - 1, nanos: (parts.1 + 1_000_000_000) as u32, duration: d }
        } else {
            Measurement { secs: parts.0, nanos: parts.1 as u32, duration: d }
        }
    }

    /// The measurement behind the outcome of a range-checked chrono call
    /// whose exact result is `n` nanoseconds.
    fn from_checked(Ghost(n): Ghost<int>, outcome: Option<chrono::TimeDelta>) -> (m: Option<
        Measurement,
    >)
        requires
            timedelta::checked(n, outcome),
        ensures
            m == Measurement::checked_of_nanos(n),
    {
        match outcome {
            Some(d) => {
                let m = Measurement::wrap(d);
                proof {
                    use_type_invariant(m);
                    m.lemma_valid();
                }
                Some(m)
            },
            None => None,
        }
    }
}

impl Default for Measurement {
    /// The zero measurement.
    fn default() -> (m: Self)
        ensures
            m == Measurement::of_nanos(0),
    {
        Measurement::zero()
    }
}

impl PartialEq for Measurement {
    /// Whether two measurements are the same, which they are exactly when
    /// they are equally long.
    fn eq(&self, other: &Measurement) -> (same: bool) {
        proof {
            use_type_invariant(self);
            use_type_invariant(other);
        }
        self.secs == other.secs && self.nanos == other.nanos
    }
}

impl vstd::std_specs::cmp::PartialEqSpecImpl for Measurement {
    open spec fn obeys_eq_spec() -> bool {
        true
    }

    open spec fn eq_spec(&self, other: &Measurement) -> bool {
        *self == *other
    }
}

impl PartialOrd for Measurement {
    /// Orders measurements by their length.
    fn partial_cmp(&self, other: &Measurement) -> (order: Option<Ordering>) {
        proof {
            use_type_invariant(self);
            use_type_invariant(other);
        }
        if self.secs < other.secs {
            Some(Ordering::Less)
        } else if self.secs > other.secs {
            Some(Ordering::Greater)
        } else if self.nanos < other.nanos {
            Some(Ordering::Less)
        } else if self.nanos > other.nanos {
            Some(Ordering::Greater)
        } else {
            Some(Ordering::Equal)
        }
    }
}

impl vstd::std_specs::cmp::PartialOrdSpecImpl for Measurement {
    open spec fn obeys_partial_cmp_spec() -> bool {
        true
    }

    open spec fn partial_cmp_spec(&self, other: &Measurement) -> Option<Ordering> {
        if self@ < other@ {
            Some(Ordering::Less)
        } else if self@ > other@ {
            Some(Ordering::Greater)
        } else {
            Some(Ordering::Equal)
        }
    }
}

impl core::ops::Add for Measurement {
    type Output = MeasureResult<Measurement>;

    /// The sum of two measurements, or `Overflow` when the sum leaves the
    /// representable range on either side: [`Measurement::checked_sum`].
    fn add(self, rhs: Measurement) -> (sum: MeasureResult<Measurement>) {
        proof {
            use_type_invariant(self);
            use_type_invariant(rhs);
        }
        // chrono adds the seconds unchecked. Seconds that do not add up
        // within an `i64` are far out of range in any case.
        let seconds: i128 = self.secs as i128 + rhs.secs as i128;
        if seconds < -9_223_372_036_854_775_808 || seconds >= 9_223_372_036_854_775_807 {
            return Err(MeasureErr::Overflow);
        }
        match timedelta::checked_add(&self.duration, &rhs.duration) {
            Some(d) => {
                let sum = Measurement::wrap(d);
                proof {
                    use_type_invariant(sum);
                    sum.lemma_valid();
                }
                Ok(sum)
            },
            None => Err(MeasureErr::Overflow),
        }
    }
}

impl AddSpecImpl for Measurement {
    open spec fn obeys_add_spec() -> bool {
        true
    }

    open spec fn add_req(self, rhs: Measurement) -> bool {
        true
    }

    open spec fn add_spec(self, rhs: Measurement) -> MeasureResult<Measurement> {
        self.checked_sum(rhs)
    }
}

impl core::ops::Sub for Measurement {
    type Output = MeasureResult<Measurement>;

    /// The difference of two measurements, or `Underflow` when the difference
    /// leaves the representable range on either side:
    /// [`Measurement::checked_difference`].
    fn sub(self, rhs: Measurement) -> (difference: MeasureResult<Measurement>) {
        proof {
            use_type_invariant(self);
            use_type_invariant(rhs);
        }
        // chrono subtracts the seconds unchecked. Seconds that do not differ
        // within an `i64` are far out of range in any case.
        let seconds: i128 = self.secs as i128 - rhs.secs as i128;
        if seconds <= -9_223_372_036_854_775_808 || seconds > 9_223_372_036_854_775_807 {
            return Err(MeasureErr::Underflow);
        }
        match timedelta::checked_sub(&self.duration, &rhs.duration) {
            Some(d) => {
                let difference = Measurement::wrap(d);
                proof {
                    use_type_invariant(difference);
                    difference.lemma_valid();
                }
                Ok(difference)
            },
            None => Err(MeasureErr::Underflow),
        }
    }
}

impl SubSpecImpl for Measurement {
    open spec fn obeys_sub_spec() -> bool {
        true
    }

    open spec fn sub_req(self, rhs: Measurement) -> bool {
        true
    }

    open spec fn sub_spec(self, rhs: Measurement) -> MeasureResult<Measurement> {
        self.checked_difference(rhs)
    }
}

impl From<chrono::TimeDelta> for Measurement {
    /// The measurement that wraps a chrono duration:
    /// [`Measurement::of_duration`]. The duration is kept as it is, also
    /// where chrono's multiplication has taken it out of the range of the
    /// arithmetic, and converting the measurement back gives it again.
    fn from(d: chrono::TimeDelta) -> (m: Measurement)
        ensures
            m == Measurement::of_duration(d),
            m.duration() == d,
            m@ == length_of(d),
    {
        Measurement::wrap(d)
    }
}

impl FromSpecImpl<chrono::TimeDelta> for Measurement {
    open spec fn obeys_from_spec() -> bool {
        true
    }

    open spec fn from_spec(d: chrono::TimeDelta) -> Measurement {
        Measurement::of_duration(d)
    }
}

impl From<Measurement> for chrono::TimeDelta {
    /// The chrono duration that a measurement wraps:
    /// [`Measurement::duration`]. Converting it back gives the same
    /// measurement.
    fn from(m: Measurement) -> (d: chrono::TimeDelta)
        ensures
            d == m.duration(),
            length_of(d) == m@,
            Measurement::of_duration(d) == m,
    {
        proof {
            use_type_invariant(m);
        }
        m.duration
    }
}

impl FromSpecImpl<Measurement> for chrono::TimeDelta {
    open spec fn obeys_from_spec() -> bool {
        true
    }

    open spec fn from_spec(m: Measurement) -> chrono::TimeDelta {
        m.duration()
    }
}

/// Adding a measurement and taking it away again gives back the measurement
/// one started from, whenever that measurement and the sum are in the range
/// of the arithmetic.
pub proof fn lemma_add_then_sub(a: Measurement, b: Measurement)
    requires
        a.wf(),
        b.wf(),
        in_range(a@),
        in_range(a@ + b@),
    ensures
        a.checked_sum(b) is Ok,
        a.checked_sum(b).unwrap().checked_difference(b) == Ok::<Measurement, MeasureErr>(a),
{
    Measurement::lemma_of_nanos(a@ + b@);
    a.lemma_valid();
}

/// A sum that is not representable is an overflow, whichever side of the
/// range it is out on.
pub proof fn lemma_add_out_of_range(a: Measurement, b: Measurement)
    requires
        a.wf(),
        b.wf(),
        !in_range(a@ + b@),
    ensures
        a.checked_sum(b) == Err::<Measurement, MeasureErr>(MeasureErr::Overflow),
{
}

/// A measurement at either end of the range cannot grow further: adding a
/// positive measurement to the largest one, or a negative measurement to the
/// smallest one, is an overflow.
pub proof fn lemma_add_at_limit(a: Measurement, b: Measurement)
    requires
        a.wf(),
        b.wf(),
        (a@ == MAX_NANOS && b@ > 0) || (a@ == -MAX_NANOS && b@ < 0),
    ensures
        a.checked_sum(b) == Err::<Measurement, MeasureErr>(MeasureErr::Overflow),
{
}

/// Two measurements are equal exactly when they are equally long, and one is
/// less than the other exactly when it is shorter.
pub proof fn lemma_compare_by_length(a: Measurement, b: Measurement)
    requires
        a.wf(),
        b.wf(),
    ensures
        a == b <==> a@ == b@,
        a.partial_cmp_spec(&b) == Some(Ordering::Less) <==> a@ < b@,
        a.partial_cmp_spec(&b) == Some(Ordering::Equal) <==> a == b,
{
    a.lemma_valid();
    b.lemma_valid();
}

/// Measurements are equal and ordered as the durations they wrap: two
/// wrap the same duration exactly when they are equal, which is exactly when
/// the durations are equally long, and one is less than the other exactly
/// when its duration is shorter. This holds of all durations, whatever
/// their length.
pub proof fn lemma_conversion_keeps_order(d1: chrono::TimeDelta, d2: chrono::TimeDelta)
    requires
        timedelta::proper(d1),
        timedelta::proper(d2),
    ensures
        Measurement::of_duration(d1) == Measurement::of_duration(d2) <==> d1 == d2,
        d1 == d2 <==> length_of(d1) == length_of(d2),
        Measurement::of_duration(d1).partial_cmp_spec(&Measurement::of_duration(d2)) == Some(
            Ordering::Less,
        ) <==> length_of(d1) < length_of(d2),
        Measurement::of_duration(d1).partial_cmp_spec(&Measurement::of_duration(d2)) == Some(
            Ordering::Equal,
        ) <==> d1 == d2,
{
    Measurement::lemma_of_duration(d1);
    Measurement::lemma_of_duration(d2);
}

} // verus!
