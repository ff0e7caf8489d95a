//! Timestamps and durations in whole nanoseconds.
//!
//! Both types saturate: arithmetic never wraps and never panics. Contracts speak of the
//! nanosecond counts as mathematical integers, through the spec functions at the top of this
//! file.

use core::cmp::Ordering;
use core::ops::{Add, AddAssign, Sub, SubAssign};

use vstd::prelude::*;

verus! {

/// The larger of two integers.
pub open spec fn larger(a: int, b: int) -> int {
    if a >= b {
        a
    } else {
        b
    }
}

/// The smaller of two integers.
pub open spec fn smaller(a: int, b: int) -> int {
    if a <= b {
        a
    } else {
        b
    }
}

/// Moves `x` into `lo..=hi`; `hi` wins when that range is empty.
pub open spec fn clamped(x: int, lo: int, hi: int) -> int {
    smaller(larger(x, lo), hi)
}

/// `x`, capped at the longest duration there is.
pub open spec fn sat_duration(x: int) -> int {
    smaller(x, u64::MAX as int)
}

/// The timestamp `d` nanoseconds after `t`, held within the range of timestamps.
pub open spec fn time_after(t: int, d: int) -> int {
    clamped(t + d, i64::MIN as int, i64::MAX as int)
}

/// The timestamp `d` nanoseconds before `t`, held within the range of timestamps.
pub open spec fn time_before(t: int, d: int) -> int {
    clamped(t - d, i64::MIN as int, i64::MAX as int)
}

/// The nanoseconds from `start` to `end`: none when `end` comes first, and never more than a
/// timestamp can count.
pub open spec fn elapsed(start: int, end: int) -> int {
    clamped(end - start, 0, i64::MAX as int)
}

/// A monotonic timestamp in nanoseconds.
///
/// Schedulers treat this as an opaque host-time domain. It can stand for Mach absolute time
/// converted to nanoseconds, `Instant` deltas from process start, or any other monotonic clock
/// chosen by the embedding application.
#[derive(Clone, Copy, Debug, PartialEq, Eq, Ord, Hash, Structural)]
pub struct Time(pub i64);

impl Time {
    /// The zero timestamp.
    #[must_use]
    pub fn zero() -> (r: Self)
        ensures
            r.0 == 0,
    {
        Self(0)
    }

    /// Creates a timestamp from nanoseconds.
    #[must_use]
    pub fn from_nanos(nanos: i64) -> (r: Self)
        ensures
            r.0 == nanos,
    {
        Self(nanos)
    }

    /// Returns this timestamp as nanoseconds.
    #[must_use]
    pub fn as_nanos(self) -> (r: i64)
        ensures
            r == self.0,
    {
        self.0
    }

    /// Returns the later of two timestamps.
    #[must_use]
    pub fn max(self, other: Self) -> (r: Self)
        ensures
            r.0 == larger(self.0 as int, other.0 as int),
    {
        if self >= other {
            self
        } else {
            other
        }
    }
}

impl Default for Time {
    fn default() -> (r: Self)
        ensures
            r.0 == 0,
    {
        Self(0)
    }
}

impl PartialOrd for Time {
    fn partial_cmp(&self, other: &Self) -> (r: Option<Ordering>) {
        if self.0 < other.0 {
            Some(Ordering::Less)
        } else if self.0 == other.0 {
            Some(Ordering::Equal)
        } else {
            Some(Ordering::Greater)
        }
    }
}

impl vstd::std_specs::cmp::PartialOrdSpecImpl for Time {
    open spec fn obeys_partial_cmp_spec() -> bool {
        true
    }

    open spec fn partial_cmp_spec(&self, other: &Self) -> Option<Ordering> {
        if self.0 < other.0 {
            Some(Ordering::Less)
        } else if self.0 == other.0 {
            Some(Ordering::Equal)
        } else {
            Some(Ordering::Greater)
        }
    }
}

impl Add<Duration> for Time {
    type Output = Time;

    fn add(self, rhs: Duration) -> (r: Time) {
        let sum: i128 = self.0 as i128 + rhs.0 as i128;
        if sum > i64::MAX as i128 {
            Time(i64::MAX)
        } else {
            Time(sum as i64)
        }
    }
}

impl vstd::std_specs::ops::AddSpecImpl<Duration> for Time {
    open spec fn obeys_add_spec() -> bool {
        true
    }

    open spec fn add_req(self, rhs: Duration) -> bool {
        true
    }

    open spec fn add_spec(self, rhs: Duration) -> Time {
        Time(time_after(self.0 as int, rhs.0 as int) as i64)
    }
}

impl AddAssign<Duration> for Time {
    fn add_assign(&mut self, rhs: Duration)
        ensures
            final(self).0 == time_after(old(self).0 as int, rhs.0 as int),
    {
        *self = *self + rhs;
    }
}

impl Sub<Duration> for Time {
    type Output = Time;

    fn sub(self, rhs: Duration) -> (r: Time) {
        let difference: i128 = self.0 as i128 - rhs.0 as i128;
        if difference < i64::MIN as i128 {
            Time(i64::MIN)
        } else {
            Time(difference as i64)
        }
    }
}

impl vstd::std_specs::ops::SubSpecImpl<Duration> for Time {
    open spec fn obeys_sub_spec() -> bool {
        true
    }

    open spec fn sub_req(self, rhs: Duration) -> bool {
        true
    }

    open spec fn sub_spec(self, rhs: Duration) -> Time {
        Time(time_before(self.0 as int, rhs.0 as int) as i64)
    }
}

impl SubAssign<Duration> for Time {
    fn sub_assign(&mut self, rhs: Duration)
        ensures
            final(self).0 == time_before(old(self).0 as int, rhs.0 as int),
    {
        *self = *self - rhs;
    }
}

impl Sub<Time> for Time {
    type Output = Duration;

    fn sub(self, rhs: Time) -> (r: Duration) {
        let difference: i128 = self.0 as i128 - rhs.0 as i128;
        if difference < 0 {
            Duration(0)
        } else if difference > i64::MAX as i128 {
            Duration(i64::MAX as u64)
        } else {
            Duration(difference as u64)
        }
    }
}

impl vstd::std_specs::ops::SubSpecImpl<Time> for Time {
    open spec fn obeys_sub_spec() -> bool {
        true
    }

    open spec fn sub_req(self, rhs: Time) -> bool {
        true
    }

    open spec fn sub_spec(self, rhs: Time) -> Duration {
        Duration(elapsed(rhs.0 as int, self.0 as int) as u64)
    }
}

/// A non-negative duration in nanoseconds.
#[derive(Clone, Copy, Debug, PartialEq, Eq, Ord, Hash, Structural)]
pub struct Duration(pub u64);

impl Duration {
    /// A zero duration.
    #[must_use]
    pub fn zero() -> (r: Self)
        ensures
            r.0 == 0,
    {
        Self(0)
    }

    /// Creates a duration from nanoseconds.
    #[must_use]
    pub fn from_nanos(nanos: u64) -> (r: Self)
        ensures
            r.0 == nanos,
    {
        Self(nanos)
    }

    /// Creates a duration from microseconds.
    #[must_use]
    pub fn from_micros(micros: u64) -> (r: Self)
        ensures
            r.0 == sat_duration(micros * 1_000),
    {
        Self(micros).saturating_mul(1_000)
    }

    /// Creates a duration from milliseconds.
    #[must_use]
    pub fn from_millis(millis: u64) -> (r: Self)
        ensures
            r.0 == sat_duration(millis * 1_000_000),
    {
        Self(millis).saturating_mul(1_000_000)
    }

    /// Creates the interval for an integer hertz value; zero hertz gives a zero interval.
    #[must_use]
    pub fn from_hz(hz: u64) -> (r: Self)
        ensures
            hz == 0 ==> r.0 == 0,
            hz != 0 ==> r.0 == 1_000_000_000int / (hz as int),
    {
        if hz == 0 {
            Self(0)
        } else {
            Self(1_000_000_000 / hz)
        }
    }

    /// Returns this duration as nanoseconds.
    #[must_use]
    pub fn as_nanos(self) -> (r: u64)
        ensures
            r == self.0,
    {
        self.0
    }

    /// Returns whether the duration is zero.
    #[must_use]
    pub fn is_zero(self) -> (r: bool)
        ensures
            r == (self.0 == 0),
    {
        self.0 == 0
    }

    /// Saturating integer multiplication.
    #[must_use]
    pub fn saturating_mul(self, rhs: u64) -> (r: Self)
        ensures
            r.0 == sat_duration(self.0 * rhs),
    {
        match self.0.checked_mul(rhs) {
            Some(product) => Self(product),
            None => Self(u64::MAX),
        }
    }

    /// Integer division; a zero divisor gives a zero duration.
    #[must_use]
    pub fn div_u64(self, rhs: u64) -> (r: Self)
        ensures
            rhs == 0 ==> r.0 == 0,
            rhs != 0 ==> r.0 == self.0 as int / rhs as int,
    {
        if rhs == 0 {
            Self(0)
        } else {
            Self(self.0 / rhs)
        }
    }

    /// Clamps this duration to an inclusive range; `max_value` wins over `min_value`.
    #[must_use]
    pub fn clamp(self, min_value: Self, max_value: Self) -> (r: Self)
        ensures
            r.0 == clamped(self.0 as int, min_value.0 as int, max_value.0 as int),
    {
        shorter(longer(self, min_value), max_value)
    }
}

/// The longer of two durations.
pub(crate) fn longer(a: Duration, b: Duration) -> (r: Duration)
    ensures
        r.0 == larger(a.0 as int, b.0 as int),
{
    if a >= b {
        a
    } else {
        b
    }
}

/// The shorter of two durations.
pub(crate) fn shorter(a: Duration, b: Duration) -> (r: Duration)
    ensures
        r.0 == smaller(a.0 as int, b.0 as int),
{
    if a <= b {
        a
    } else {
        b
    }
}

impl Default for Duration {
    fn default() -> (r: Self)
        ensures
            r.0 == 0,
    {
        Self(0)
    }
}

impl PartialOrd for Duration {
    fn partial_cmp(&self, other: &Self) -> (r: Option<Ordering>) {
        if self.0 < other.0 {
            Some(Ordering::Less)
        } else if self.0 == other.0 {
            Some(Ordering::Equal)
        } else {
            Some(Ordering::Greater)
        }
    }
}

impl vstd::std_specs::cmp::PartialOrdSpecImpl for Duration {
    open spec fn obeys_partial_cmp_spec() -> bool {
        true
    }

    open spec fn partial_cmp_spec(&self, other: &Self) -> Option<Ordering> {
        if self.0 < other.0 {
            Some(Ordering::Less)
        } else if self.0 == other.0 {
            Some(Ordering::Equal)
        } else {
            Some(Ordering::Greater)
        }
    }
}

impl Add<Duration> for Duration {
    type Output = Duration;

    fn add(self, rhs: Duration) -> (r: Duration) {
        Duration(self.0.saturating_add(rhs.0))
    }
}

impl vstd::std_specs::ops::AddSpecImpl<Duration> for Duration {
    open spec fn obeys_add_spec() -> bool {
        true
    }

    open spec fn add_req(self, rhs: Duration) -> bool {
        true
    }

    open spec fn add_spec(self, rhs: Duration) -> Duration {
        Duration(sat_duration(self.0 + rhs.0) as u64)
    }
}

impl AddAssign<Duration> for Duration {
    fn add_assign(&mut self, rhs: Duration)
        ensures
            final(self).0 == sat_duration(old(self).0 + rhs.0),
    {
        *self = *self + rhs;
    }
}

impl Sub<Duration> for Duration {
    type Output = Duration;

    fn sub(self, rhs: Duration) -> (r: Duration) {
        Duration(self.0.saturating_sub(rhs.0))
    }
}

impl vstd::std_specs::ops::SubSpecImpl<Duration> for Duration {
    open spec fn obeys_sub_spec() -> bool {
        true
    }

    open spec fn sub_req(self, rhs: Duration) -> bool {
        true
    }

    open spec fn sub_spec(self, rhs: Duration) -> Duration {
        Duration(larger(self.0 - rhs.0, 0) as u64)
    }
}

impl SubAssign<Duration> for Duration {
    fn sub_assign(&mut self, rhs: Duration)
        ensures
            final(self).0 == larger(old(self).0 - rhs.0, 0),
    {
        *self = *self - rhs;
    }
}

/// Going forward by `d` and then back by `d` returns to `t`, unless the later timestamp had to
/// be capped.
pub proof fn law_after_then_before(t: Time, d: Duration)
    requires
        t.0 + d.0 <= i64::MAX,
    ensures
        time_before(time_after(t.0 as int, d.0 as int), d.0 as int) == t.0,
{
}

/// The time elapsed from `t` to `d` later is `d`, unless the later timestamp had to be capped or
/// `d` is longer than a timestamp can count.
pub proof fn law_elapsed_since_start(t: Time, d: Duration)
    requires
        t.0 + d.0 <= i64::MAX,
        d.0 <= i64::MAX,
    ensures
        elapsed(t.0 as int, time_after(t.0 as int, d.0 as int)) == d.0,
{
}

/// Later starts and longer durations never give an earlier timestamp.
pub proof fn law_after_is_monotone(t1: Time, t2: Time, d1: Duration, d2: Duration)
    requires
        t1.0 <= t2.0,
        d1.0 <= d2.0,
    ensures
        t1.0 <= time_after(t1.0 as int, d1.0 as int) <= time_after(t2.0 as int, d2.0 as int),
{
}

/// A longer lead time never gives a later timestamp.
pub proof fn law_before_is_antitone(t: Time, d1: Duration, d2: Duration)
    requires
        d1.0 <= d2.0,
    ensures
        time_before(t.0 as int, d2.0 as int) <= time_before(t.0 as int, d1.0 as int) <= t.0,
{
}

/// A timestamp moved ahead is the last one that there is up to the exact sum, and one moved back
/// the first that there is from the exact difference on: arithmetic is exact wherever the result is
/// a timestamp at all.
pub proof fn law_timestamps_are_the_nearest_that_exist(t: Time, d: Duration, other: Time)
    ensures
        time_after(t.0 as int, d.0 as int) <= t.0 + d.0,
        i64::MIN <= time_after(t.0 as int, d.0 as int) <= i64::MAX,
        other.0 <= t.0 + d.0 ==> other.0 <= time_after(t.0 as int, d.0 as int),
        time_before(t.0 as int, d.0 as int) >= t.0 - d.0,
        i64::MIN <= time_before(t.0 as int, d.0 as int) <= i64::MAX,
        other.0 >= t.0 - d.0 ==> other.0 >= time_before(t.0 as int, d.0 as int),
{
}

/// The time between two timestamps is never negative, is exact where the end does not come first
/// and the count fits, and otherwise is the nearest that does.
pub proof fn law_elapsed_is_the_nearest_count(start: Time, end: Time)
    ensures
        0 <= elapsed(start.0 as int, end.0 as int) <= i64::MAX,
        start.0 <= end.0 <= start.0 + i64::MAX ==> elapsed(start.0 as int, end.0 as int) == end.0
            - start.0,
        end.0 < start.0 ==> elapsed(start.0 as int, end.0 as int) == 0,
        end.0 - start.0 > i64::MAX ==> elapsed(start.0 as int, end.0 as int) == i64::MAX,
{
}

/// A count of nanoseconds is kept as it is where it is a duration, and is cut off at the longest
/// duration otherwise.
pub proof fn law_long_durations_are_cut_off(nanos: nat)
    ensures
        nanos <= u64::MAX ==> sat_duration(nanos as int) == nanos,
        nanos > u64::MAX ==> sat_duration(nanos as int) == u64::MAX,
{
}

/// Clamping leaves a value in the range alone and moves any other to the nearest end of the range.
/// The upper end wins over the lower one.
pub proof fn law_clamping_moves_to_the_nearest_end(x: int, lo: int, hi: int)
    ensures
        lo <= x <= hi ==> clamped(x, lo, hi) == x,
        x < lo <= hi ==> clamped(x, lo, hi) == lo,
        x > hi || lo > hi ==> clamped(x, lo, hi) == hi,
        larger(x, lo) >= x && larger(x, lo) >= lo && (larger(x, lo) == x || larger(x, lo) == lo),
        smaller(x, hi) <= x && smaller(x, hi) <= hi && (smaller(x, hi) == x || smaller(x, hi)
            == hi),
{
}

/// The operators count in nanoseconds. A timestamp moved by a duration, the sum of two durations
/// and the difference of two timestamps or durations are exact wherever the type can hold the
/// result, and stop at the end of its range otherwise: a difference is never negative.
pub proof fn law_operators_count_nanoseconds(t: Time, u: Time, d: Duration, e: Duration)
    ensures
        ({
            let later = vstd::std_specs::ops::AddSpec::add_spec(t, d);
            &&& t.0 + d.0 <= i64::MAX ==> later.0 == t.0 + d.0
            &&& t.0 + d.0 > i64::MAX ==> later.0 == i64::MAX
        }),
        ({
            let earlier = vstd::std_specs::ops::SubSpec::<Duration>::sub_spec(t, d);
            &&& t.0 - d.0 >= i64::MIN ==> earlier.0 == t.0 - d.0
            &&& t.0 - d.0 < i64::MIN ==> earlier.0 == i64::MIN
        }),
        ({
            let between = vstd::std_specs::ops::SubSpec::<Time>::sub_spec(t, u);
            &&& 0 <= t.0 - u.0 <= i64::MAX ==> between.0 == t.0 - u.0
            &&& t.0 < u.0 ==> between.0 == 0
            &&& t.0 - u.0 > i64::MAX ==> between.0 == i64::MAX
        }),
        ({
            let sum = vstd::std_specs::ops::AddSpec::add_spec(d, e);
            &&& d.0 + e.0 <= u64::MAX ==> sum.0 == d.0 + e.0
            &&& d.0 + e.0 > u64::MAX ==> sum.0 == u64::MAX
        }),
        ({
            let rest = vstd::std_specs::ops::SubSpec::sub_spec(d, e);
            &&& d.0 >= e.0 ==> rest.0 == d.0 - e.0
            &&& d.0 < e.0 ==> rest.0 == 0
        }),
{
}

} // verus!
