//! Frame-rate preferences, the cadences they are served at, and which ticks are delivered.

use crate::display::{
    self, rounded_up_multiple_count, tolerant_interval_error, DisplayModel, DisplayTiming,
};
use crate::time::{self, Duration};
use vstd::prelude::*;

verus! {

/// `value / divisor`, rounded up; zero when either is zero.
pub open spec fn ceil_quotient(value: int, divisor: int) -> int {
    if divisor == 0 || value == 0 {
        0
    } else {
        1 + (value - 1) / divisor
    }
}

/// Whether tick `index` of a source with interval `tick` is delivered to a consumer with interval
/// `target`: every tick to a consumer at least as fast as the source, and otherwise each tick
/// within which a new period of the consumer begins.
pub open spec fn delivers(index: int, tick: int, target: int) -> bool {
    ||| tick == 0
    ||| target <= tick
    ||| ceil_quotient((index + 1) * tick, target) > ceil_quotient(index * tick, target)
}

/// How many of the first `ticks` ticks are delivered.
pub open spec fn delivered_count(ticks: nat, tick: int, target: int) -> int
    decreases ticks,
{
    if ticks == 0 {
        0
    } else {
        delivered_count((ticks - 1) as nat, tick, target) + if delivers(ticks - 1, tick, target) {
            1int
        } else {
            0
        }
    }
}

fn ceil_div(value: u128, divisor: u128) -> (r: u128)
    ensures
        r == ceil_quotient(value as int, divisor as int),
{
    if divisor == 0 || value == 0 {
        0
    } else {
        proof {
            vstd::arithmetic::div_mod::lemma_div_is_ordered_by_denominator(
                value - 1,
                1,
                divisor as int,
            );
            vstd::arithmetic::div_mod::lemma_div_basics(value - 1);
        }
        1 + ((value - 1) / divisor)
    }
}

fn should_deliver_interval(
    frame_index: u64,
    tick_interval: Duration,
    target_interval: Duration,
) -> (r: bool)
    ensures
        r == delivers(frame_index as int, tick_interval.0 as int, target_interval.0 as int),
{
    if tick_interval.is_zero() || target_interval <= tick_interval {
        return true;
    }
    let index: u128 = frame_index as u128;
    let tick: u128 = tick_interval.0 as u128;
    let target: u128 = target_interval.0 as u128;
    proof {
        assert((index + 1) * tick <= u128::MAX && index * tick <= u128::MAX) by (nonlinear_arith)
            requires
                index <= u64::MAX,
                tick <= u64::MAX,
        ;
    }
    let current: u128 = ceil_div((index + 1) * tick, target);
    let previous: u128 = ceil_div(index * tick, target);
    current > previous
}

/// A requested presentation cadence expressed as a target frame interval.
///
/// This is the platform-independent policy for throttling frame opportunities to a layer,
/// animation callback, or producer. Fixed-rate displays quantize the request to an even multiple
/// of the display interval. Variable-refresh displays with an explicit update granularity
/// quantize to that granularity. Displays that only report a broad VRR range are treated like
/// fixed-rate sources at their fastest reported cadence.
#[derive(Clone, Copy, Debug, PartialEq, Eq, Structural)]
pub struct TargetFrameCadence {
    target_interval: Duration,
}

impl View for TargetFrameCadence {
    type V = int;

    /// The requested interval in nanoseconds.
    closed spec fn view(&self) -> int {
        self.target_interval.0 as int
    }
}

impl TargetFrameCadence {
    /// Creates a cadence from a requested target interval; a zero interval is no cadence.
    #[must_use]
    pub fn from_interval(target_interval: Duration) -> (r: Option<Self>)
        ensures
            r is Some <==> target_interval.0 > 0,
            r matches Some(cadence) ==> cadence@ == target_interval.0,
    {
        if target_interval.is_zero() {
            None
        } else {
            Some(Self { target_interval })
        }
    }

    /// Returns the requested target interval.
    #[must_use]
    pub fn target_interval(self) -> (r: Duration)
        ensures
            r.0 == self@,
    {
        self.target_interval
    }

    /// Returns a cadence for a frame-rate preference on `display`.
    #[must_use]
    pub fn from_preference(preference: FrameRatePreference, display: DisplayTiming) -> (r: Option<
        Self,
    >)
        ensures
            r is Some <==> preference.planned(display@) is Some,
            r matches Some(cadence) ==> cadence@ == preference.planned(display@)->0.delivery,
    {
        match preference.plan(display) {
            Some(plan) => Self::from_interval(plan.delivery_interval),
            None => None,
        }
    }

    /// Returns the effective target interval to report to diagnostics and use for opportunity
    /// delivery.
    ///
    /// Fixed-rate displays round down to a stable divisor of the hardware refresh.
    /// Variable-refresh displays with an explicit update granularity quantize to that
    /// granularity. Displays that only report a broad VRR range round down from the fastest
    /// reported source cadence.
    #[must_use]
    pub fn effective_interval(self, display: DisplayTiming) -> (r: Duration)
        ensures
            r.0 == display@.interval_for(self@),
    {
        display.choose_interval(self.target_interval)
    }

    /// Returns whether a frame opportunity should be delivered for `frame_index`.
    ///
    /// `frame_index` is expected to be a monotonically increasing display tick index in the
    /// host's frame source. This function is intentionally stateless so the same policy can be
    /// used by UI callbacks, compositor surfaces, and diagnostics without carrying duplicated
    /// scheduler state.
    #[must_use]
    pub fn should_deliver(
        self,
        frame_index: u64,
        display: DisplayTiming,
        tick_interval: Duration,
    ) -> (r: bool)
        ensures
            r == delivers(
                frame_index as int,
                tick_interval.0 as int,
                display@.interval_for(self@),
            ),
    {
        should_deliver_interval(frame_index, tick_interval, self.effective_interval(display))
    }
}

/// A source and a delivery interval in nanoseconds.
pub struct FrameRatePlanModel {
    /// The interval of the shared frame source.
    pub source: int,
    /// The interval of the individual consumer.
    pub delivery: int,
}

/// Source and delivery cadence chosen for a frame-rate preference.
///
/// `source_interval` is the cadence the host should prefer for the shared frame source when this
/// preference is part of the active work set. `delivery_interval` is the cadence for the
/// individual layer, callback, or producer. These can differ on variable-refresh displays: a
/// source at 60 Hz can deliver an `at_most` 30 Hz consumer every other source tick.
#[derive(Clone, Copy, Debug, PartialEq, Eq, Structural)]
pub struct FrameRatePlan {
    source_interval: Duration,
    delivery_interval: Duration,
}

impl View for FrameRatePlan {
    type V = FrameRatePlanModel;

    closed spec fn view(&self) -> FrameRatePlanModel {
        FrameRatePlanModel {
            source: self.source_interval.0 as int,
            delivery: self.delivery_interval.0 as int,
        }
    }
}

/// The intervals of an optional plan.
pub open spec fn optional_plan(plan: Option<FrameRatePlan>) -> Option<FrameRatePlanModel> {
    match plan {
        Some(plan) => Some(plan@),
        None => None,
    }
}

impl FrameRatePlan {
    /// Creates a plan from explicit source and delivery intervals; there is no plan with a zero
    /// interval.
    #[must_use]
    pub fn new(source_interval: Duration, delivery_interval: Duration) -> (r: Option<Self>)
        ensures
            r is Some <==> source_interval.0 > 0 && delivery_interval.0 > 0,
            r matches Some(plan) ==> plan@ == (FrameRatePlanModel {
                source: source_interval.0 as int,
                delivery: delivery_interval.0 as int,
            }),
    {
        if source_interval.is_zero() || delivery_interval.is_zero() {
            None
        } else {
            Some(Self { source_interval, delivery_interval })
        }
    }

    /// The desired cadence for the shared frame source.
    #[must_use]
    pub fn source_interval(self) -> (r: Duration)
        ensures
            r.0 == self@.source,
    {
        self.source_interval
    }

    /// The desired cadence for this consumer.
    #[must_use]
    pub fn delivery_interval(self) -> (r: Duration)
        ensures
            r.0 == self@.delivery,
    {
        self.delivery_interval
    }

    /// Returns whether a source opportunity should be delivered to this consumer.
    #[must_use]
    pub fn should_deliver(self, frame_index: u64, source_interval: Duration) -> (r: bool)
        ensures
            r == delivers(frame_index as int, source_interval.0 as int, self@.delivery),
    {
        should_deliver_interval(frame_index, source_interval, self.delivery_interval)
    }
}

/// Frame-rate hint and acceptable fallback range.
///
/// This is modeled after platform APIs such as `CAFrameRateRange`, but keeps invalid combinations
/// unrepresentable:
///
/// - [`FrameRatePreference::full`] means no throttling by this policy.
/// - [`FrameRatePreference::at_most`] is a power-saving cap. Fixed-rate displays choose the
///   nearest clean cadence that does not exceed the cap.
/// - [`FrameRatePreference::preferred`] requests a best rate and can be refined with
///   [`FrameRatePreferenceBuilder::minimum`] or [`FrameRatePreferenceBuilder::range`]. If
///   fixed-rate quantization would fall below the minimum acceptable FPS, the policy chooses the
///   next clean higher cadence when possible.
///
/// Rates are given by their frame intervals. A rate that has no interval, such as zero frames per
/// second, is given as `None`, and no preference is made of it, nor of an interval of zero.
#[derive(Clone, Copy, Debug, PartialEq, Eq, Structural)]
pub enum FrameRatePreference {
    /// Deliver every eligible display opportunity.
    Full,
    /// Prefer `preferred_interval`, constrained to an optional acceptable range.
    Preferred {
        /// Fastest acceptable interval, equivalent to the maximum acceptable FPS.
        min_interval: Option<Duration>,
        /// Requested best interval.
        preferred_interval: Duration,
        /// Slowest acceptable interval, equivalent to the minimum acceptable FPS.
        max_interval: Option<Duration>,
    },
}

impl FrameRatePreference {
    /// No interval is zero, and the preferred one lies in the acceptable range.
    pub open spec fn is_consistent(self) -> bool {
        match self {
            FrameRatePreference::Full => true,
            FrameRatePreference::Preferred { min_interval, preferred_interval, max_interval } => {
                (PreferenceModel {
                    min: display::optional_nanos(min_interval),
                    preferred: preferred_interval.0 as int,
                    max: display::optional_nanos(max_interval),
                }).wf()
            },
        }
    }

    /// The delivery interval for this preference on a display, where it throttles.
    pub open spec fn planned_delivery(self, display: DisplayModel) -> Option<int> {
        match self {
            FrameRatePreference::Full => None,
            FrameRatePreference::Preferred { min_interval, preferred_interval, max_interval } => {
                Some(
                    display.preferred_interval(
                        preferred_interval.0 as int,
                        display::optional_nanos(min_interval),
                        display::optional_nanos(max_interval),
                    ),
                )
            },
        }
    }

    /// The source and delivery intervals for this preference on a display; there is no plan
    /// without throttling, nor with a zero interval.
    pub open spec fn planned(self, display: DisplayModel) -> Option<FrameRatePlanModel> {
        match self.planned_delivery(display) {
            Some(delivery) => {
                let source = display.source_for_delivery(delivery);
                if source == 0 || delivery == 0 {
                    None
                } else {
                    Some(FrameRatePlanModel { source, delivery })
                }
            },
            None => None,
        }
    }

    /// No throttling by this policy.
    #[must_use]
    pub fn full() -> (r: Self)
        ensures
            r == FrameRatePreference::Full,
    {
        Self::Full
    }

    /// Runs no faster than the rate of `interval`, choosing a clean lower cadence on fixed-rate
    /// displays when that rate is not directly supported.
    #[must_use]
    pub fn at_most(interval: Option<Duration>) -> (r: Option<Self>)
        ensures
            r == match interval {
                Some(interval) if interval.0 > 0 => Some(
                    FrameRatePreference::Preferred {
                        min_interval: Some(interval),
                        preferred_interval: interval,
                        max_interval: None,
                    },
                ),
                _ => None,
            },
            r matches Some(preference) ==> preference.is_consistent(),
    {
        match positive_interval(interval) {
            Some(interval) => Some(
                Self::Preferred {
                    min_interval: Some(interval),
                    preferred_interval: interval,
                    max_interval: None,
                },
            ),
            None => None,
        }
    }

    /// Starts a preference builder with a preferred interval.
    #[must_use]
    pub fn preferred(interval: Option<Duration>) -> (r: Option<FrameRatePreferenceBuilder>)
        ensures
            r is Some <==> is_positive(interval),
            r matches Some(builder) ==> builder@ == (PreferenceModel {
                min: None,
                preferred: display::optional_nanos(interval)->0,
                max: None,
            }) && builder@.wf(),
    {
        match positive_interval(interval) {
            Some(preferred_interval) => Some(
                FrameRatePreferenceBuilder {
                    min_interval: None,
                    preferred_interval,
                    max_interval: None,
                },
            ),
            None => None,
        }
    }

    /// Starts a preference builder with an acceptable range: the interval of the slowest
    /// acceptable rate, then that of the fastest, which is preferred.
    #[must_use]
    pub fn range(max_interval: Option<Duration>, min_interval: Option<Duration>) -> (r: Option<
        FrameRatePreferenceBuilder,
    >)
        ensures
            r is Some <==> {
                &&& is_positive(max_interval)
                &&& is_positive(min_interval)
                &&& display::optional_nanos(min_interval)->0 <= display::optional_nanos(
                    max_interval,
                )->0
            },
            r matches Some(builder) ==> builder@ == (PreferenceModel {
                min: Some(display::optional_nanos(min_interval)->0),
                preferred: display::optional_nanos(min_interval)->0,
                max: Some(display::optional_nanos(max_interval)->0),
            }) && builder@.wf(),
    {
        match (positive_interval(min_interval), positive_interval(max_interval)) {
            (Some(fastest), Some(slowest)) => {
                if fastest > slowest {
                    return None;
                }
                Some(
                    FrameRatePreferenceBuilder {
                        min_interval: Some(fastest),
                        preferred_interval: fastest,
                        max_interval: Some(slowest),
                    },
                )
            },
            _ => None,
        }
    }

    /// The requested preferred interval when this preference throttles.
    #[must_use]
    pub fn preferred_interval(self) -> (r: Option<Duration>)
        ensures
            r == match self {
                FrameRatePreference::Full => None,
                FrameRatePreference::Preferred { preferred_interval, .. } => Some(
                    preferred_interval,
                ),
            },
    {
        match self {
            Self::Full => None,
            Self::Preferred { preferred_interval, .. } => Some(preferred_interval),
        }
    }

    /// Returns the effective interval to report and use for opportunity delivery.
    #[must_use]
    pub fn effective_interval(self, display: DisplayTiming) -> (r: Option<Duration>)
        ensures
            r is Some <==> self.planned(display@) is Some,
            r matches Some(interval) ==> interval.0 == self.planned(display@)->0.delivery,
    {
        match self.plan(display) {
            Some(plan) => Some(plan.delivery_interval),
            None => None,
        }
    }

    /// Returns the source/delivery cadence plan for this preference.
    #[must_use]
    pub fn plan(self, display: DisplayTiming) -> (r: Option<FrameRatePlan>)
        ensures
            optional_plan(r) == self.planned(display@),
            r matches Some(plan) ==> plan@.source > 0 && plan@.delivery > 0,
    {
        match self {
            Self::Full => None,
            Self::Preferred { min_interval, preferred_interval, max_interval } => {
                let delivery_interval = display.choose_preferred_interval(
                    preferred_interval,
                    min_interval,
                    max_interval,
                );
                FrameRatePlan::new(
                    display.choose_source_interval_for_delivery(delivery_interval),
                    delivery_interval,
                )
            },
        }
    }

    /// Returns whether a frame opportunity should be delivered for `frame_index`.
    #[must_use]
    pub fn should_deliver(
        self,
        frame_index: u64,
        display: DisplayTiming,
        tick_interval: Duration,
    ) -> (r: bool)
        ensures
            r == match self.planned(display@) {
                Some(plan) => delivers(frame_index as int, tick_interval.0 as int, plan.delivery),
                None => true,
            },
    {
        match self.plan(display) {
            Some(plan) => plan.should_deliver(frame_index, tick_interval),
            None => true,
        }
    }
}

/// An interval is given, and it is not zero.
pub open spec fn is_positive(interval: Option<Duration>) -> bool {
    interval matches Some(interval) && interval.0 > 0
}

/// Leaves out an interval of zero.
fn positive_interval(interval: Option<Duration>) -> (r: Option<Duration>)
    ensures
        r == if is_positive(interval) {
            interval
        } else {
            None
        },
{
    match interval {
        Some(interval) => if interval.is_zero() {
            None
        } else {
            Some(interval)
        },
        None => None,
    }
}

/// A preferred interval and its acceptable range, in nanoseconds.
pub struct PreferenceModel {
    /// Fastest acceptable interval.
    pub min: Option<int>,
    /// Requested best interval.
    pub preferred: int,
    /// Slowest acceptable interval.
    pub max: Option<int>,
}

impl PreferenceModel {
    /// No interval is zero, and the preferred one lies in the acceptable range, which therefore is
    /// not empty.
    pub open spec fn wf(self) -> bool {
        &&& self.preferred > 0
        &&& self.min matches Some(min) ==> 0 < min <= self.preferred
        &&& self.max matches Some(max) ==> self.preferred <= max
    }
}

/// Builder for [`FrameRatePreference`].
#[derive(Clone, Copy, Debug, PartialEq, Eq, Structural)]
pub struct FrameRatePreferenceBuilder {
    min_interval: Option<Duration>,
    preferred_interval: Duration,
    max_interval: Option<Duration>,
}

impl View for FrameRatePreferenceBuilder {
    type V = PreferenceModel;

    closed spec fn view(&self) -> PreferenceModel {
        PreferenceModel {
            min: display::optional_nanos(self.min_interval),
            preferred: self.preferred_interval.0 as int,
            max: display::optional_nanos(self.max_interval),
        }
    }
}

impl FrameRatePreferenceBuilder {
    #[verifier::type_invariant]
    closed spec fn is_valid(self) -> bool {
        self@.wf()
    }

    /// Sets the preferred interval; there is none outside the acceptable range.
    #[must_use]
    pub fn preferred(self, interval: Option<Duration>) -> (r: Option<Self>)
        ensures
            r is Some <==> {
                &&& is_positive(interval)
                &&& self@.min matches Some(min) ==> min <= display::optional_nanos(interval)->0
                &&& self@.max matches Some(max) ==> display::optional_nanos(interval)->0 <= max
            },
            r matches Some(builder) ==> builder@ == (PreferenceModel {
                preferred: display::optional_nanos(interval)->0,
                ..self@
            }) && builder@.wf(),
    {
        proof {
            use_type_invariant(&self);
        }
        let preferred_interval = match positive_interval(interval) {
            Some(interval) => interval,
            None => {
                return None;
            },
        };
        if let Some(min_interval) = self.min_interval {
            if preferred_interval < min_interval {
                return None;
            }
        }
        if let Some(max_interval) = self.max_interval {
            if preferred_interval > max_interval {
                return None;
            }
        }
        Some(Self { preferred_interval, ..self })
    }

    /// Sets the interval of the minimum acceptable rate.
    #[must_use]
    pub fn minimum(self, interval: Option<Duration>) -> (r: Option<Self>)
        ensures
            r is Some <==> {
                &&& is_positive(interval)
                &&& self@.min matches Some(min) ==> min <= display::optional_nanos(interval)->0
                &&& self@.preferred <= display::optional_nanos(interval)->0
            },
            r matches Some(builder) ==> builder@ == (PreferenceModel {
                max: Some(display::optional_nanos(interval)->0),
                ..self@
            }) && builder@.wf(),
    {
        proof {
            use_type_invariant(&self);
        }
        let max_interval = match positive_interval(interval) {
            Some(interval) => interval,
            None => {
                return None;
            },
        };
        if let Some(min_interval) = self.min_interval {
            if min_interval > max_interval {
                return None;
            }
        }
        if self.preferred_interval > max_interval {
            return None;
        }
        Some(Self { max_interval: Some(max_interval), ..self })
    }

    /// Sets the interval of the maximum acceptable rate.
    #[must_use]
    pub fn maximum(self, interval: Option<Duration>) -> (r: Option<Self>)
        ensures
            r is Some <==> {
                &&& is_positive(interval)
                &&& self@.max matches Some(max) ==> display::optional_nanos(interval)->0 <= max
                &&& display::optional_nanos(interval)->0 <= self@.preferred
            },
            r matches Some(builder) ==> builder@ == (PreferenceModel {
                min: Some(display::optional_nanos(interval)->0),
                ..self@
            }) && builder@.wf(),
    {
        proof {
            use_type_invariant(&self);
        }
        let min_interval = match positive_interval(interval) {
            Some(interval) => interval,
            None => {
                return None;
            },
        };
        if let Some(max_interval) = self.max_interval {
            if min_interval > max_interval {
                return None;
            }
        }
        if self.preferred_interval < min_interval {
            return None;
        }
        Some(Self { min_interval: Some(min_interval), ..self })
    }

    /// Sets an acceptable range: the interval of the slowest acceptable rate, then that of the
    /// fastest. The preferred interval must lie in it.
    #[must_use]
    pub fn range(
        self,
        max_interval: Option<Duration>,
        min_interval: Option<Duration>,
    ) -> (r: Option<Self>)
        ensures
            r is Some <==> {
                &&& is_positive(max_interval)
                &&& is_positive(min_interval)
                &&& display::optional_nanos(min_interval)->0 <= self@.preferred
                &&& self@.preferred <= display::optional_nanos(max_interval)->0
            },
            r matches Some(builder) ==> builder@ == (PreferenceModel {
                min: Some(display::optional_nanos(min_interval)->0),
                preferred: self@.preferred,
                max: Some(display::optional_nanos(max_interval)->0),
            }) && builder@.wf(),
    {
        match (positive_interval(min_interval), positive_interval(max_interval)) {
            (Some(fastest), Some(slowest)) => {
                if fastest > slowest {
                    return None;
                }
                if self.preferred_interval < fastest || self.preferred_interval > slowest {
                    return None;
                }
                Some(
                    Self {
                        min_interval: Some(fastest),
                        preferred_interval: self.preferred_interval,
                        max_interval: Some(slowest),
                    },
                )
            },
            _ => None,
        }
    }

    /// Builds the preference.
    #[must_use]
    pub fn build(self) -> (r: FrameRatePreference)
        ensures
            r matches FrameRatePreference::Preferred {
                min_interval,
                preferred_interval,
                max_interval,
            } && display::optional_nanos(min_interval) == self@.min && preferred_interval.0
                == self@.preferred && display::optional_nanos(max_interval) == self@.max,
            self@.wf(),
            r.is_consistent(),
    {
        proof {
            use_type_invariant(&self);
        }
        FrameRatePreference::Preferred {
            min_interval: self.min_interval,
            preferred_interval: self.preferred_interval,
            max_interval: self.max_interval,
        }
    }
}

/// The delivery interval that a source of interval `source` can offer a consumer of interval
/// `delivery`.
pub open spec fn quantized_delivery(delivery: int, source: int) -> int {
    if source == 0 || delivery <= source {
        source
    } else {
        time::sat_duration(source * display::covering_multiples(delivery, source))
    }
}

/// By how much a source of interval `source` misses the delivery interval planned for
/// `preference`.
pub open spec fn member_error(
    source: int,
    preference: FrameRatePreference,
    display: DisplayModel,
) -> int {
    match preference.planned(display) {
        Some(plan) => display::tolerant_gap(
            quantized_delivery(plan.delivery, source),
            plan.delivery,
        ),
        None => 0,
    }
}

/// By how much a source of interval `source` misses the members of a group in all.
pub open spec fn group_error(
    source: int,
    preferences: Seq<FrameRatePreference>,
    display: DisplayModel,
) -> int
    decreases preferences.len(),
{
    if preferences.len() == 0 {
        0
    } else {
        group_error(source, preferences.drop_last(), display) + member_error(
            source,
            preferences.last(),
            display,
        )
    }
}

/// `source` is the display's fastest interval or the source planned for a member of the group.
pub open spec fn is_source_candidate(
    source: int,
    preferences: Seq<FrameRatePreference>,
    display: DisplayModel,
) -> bool {
    ||| source == display.min
    ||| exists|i: int|
        0 <= i < preferences.len() && (#[trigger] preferences[i]).planned(display) is Some
            && preferences[i].planned(display)->0.source == source
}

/// Every member of a non-empty group is throttled by a plan.
pub open spec fn all_planned(preferences: Seq<FrameRatePreference>, display: DisplayModel) -> bool {
    &&& preferences.len() > 0
    &&& forall|i: int|
        0 <= i < preferences.len() ==> (#[trigger] preferences[i]).planned(display) is Some
}

/// `source` serves the group best: it misses the members by the least in all, and is the slowest
/// candidate that does so.
pub open spec fn is_best_source(
    source: int,
    preferences: Seq<FrameRatePreference>,
    display: DisplayModel,
) -> bool {
    &&& is_source_candidate(source, preferences, display)
    &&& forall|other: int| #[trigger]
        is_source_candidate(other, preferences, display) ==> {
            let e = group_error(source, preferences, display);
            let f = group_error(other, preferences, display);
            e < f || e == f && other <= source
        }
}

/// Chooses the source cadence that best serves an active group of frame-rate preferences: the
/// display's fastest unless every member can be throttled.
///
/// The returned interval is for the shared display/frame source. Hosts should still evaluate each
/// consumer's own [`FrameRatePlan::delivery_interval`] to decide whether that consumer receives a
/// given source opportunity.
#[must_use]
pub fn choose_frame_rate_source_interval(
    preferences: &[FrameRatePreference],
    display: DisplayTiming,
) -> (r: Duration)
    ensures
        !all_planned(preferences@, display@) ==> r.0 == display@.min,
        all_planned(preferences@, display@) ==> is_best_source(
            r.0 as int,
            preferences@,
            display@,
        ),
{
    if preferences.len() == 0 {
        return display.min_interval();
    }
    let ghost group = preferences@;
    let ghost model = display@;
    let mut best_source = display.min_interval();
    let mut best_score: u128 = score_frame_rate_source_interval(best_source, preferences, display);
    let mut i: usize = 0;
    while i < preferences.len()
        invariant
            group == preferences@,
            model == display@,
            0 <= i <= group.len(),
            group.len() > 0,
            forall|j: int| 0 <= j < i ==> (#[trigger] group[j]).planned(model) is Some,
            is_source_candidate(best_source.0 as int, group, model),
            best_score == group_error(best_source.0 as int, group, model),
            group_error(best_source.0 as int, group, model) < group_error(model.min, group, model)
                || group_error(best_source.0 as int, group, model) == group_error(
                model.min,
                group,
                model,
            ) && model.min <= best_source.0,
            forall|j: int|
                0 <= j < i ==> {
                    let other = (#[trigger] group[j]).planned(model)->0.source;
                    let e = group_error(best_source.0 as int, group, model);
                    let f = group_error(other, group, model);
                    e < f || e == f && other <= best_source.0
                },
        decreases group.len() - i,
    {
        let preference = preferences[i];
        let plan = match preference.plan(display) {
            Some(plan) => plan,
            None => {
                assert(group[i as int].planned(model) is None);
                return display.min_interval();
            },
        };
        let source = plan.source_interval();
        let score: u128 = score_frame_rate_source_interval(source, preferences, display);
        proof {
            assert(group[i as int].planned(model) == Some(plan@));
            assert(is_source_candidate(source.0 as int, group, model));
        }
        if score < best_score || (score == best_score && source > best_source) {
            best_source = source;
            best_score = score;
        }
        i = i + 1;
    }
    best_source
}

fn score_frame_rate_source_interval(
    source_interval: Duration,
    preferences: &[FrameRatePreference],
    display: DisplayTiming,
) -> (r: u128)
    ensures
        r == group_error(source_interval.0 as int, preferences@, display@),
{
    let ghost group = preferences@;
    let mut total: u128 = 0;
    let mut i: usize = 0;
    while i < preferences.len()
        invariant
            group == preferences@,
            0 <= i <= group.len(),
            total == group_error(source_interval.0 as int, group.take(i as int), display@),
            0 <= total <= i * u64::MAX,
        decreases group.len() - i,
    {
        let preference = preferences[i];
        proof {
            assert(group.take(i + 1).drop_last() == group.take(i as int));
            assert(group.take(i + 1).last() == preference);
            assert(i * u64::MAX + u64::MAX <= u128::MAX) by (nonlinear_arith)
                requires
                    i <= u64::MAX,
            ;
            assert((i + 1) * u64::MAX == i * u64::MAX + u64::MAX) by (nonlinear_arith);
        }
        match preference.plan(display) {
            Some(plan) => {
                let delivery = quantize_delivery_to_source_interval(
                    plan.delivery_interval,
                    source_interval,
                );
                let error: u64 = tolerant_interval_error(delivery, plan.delivery_interval);
                total = total + error as u128;
            },
            None => {},
        }
        i = i + 1;
    }
    proof {
        assert(group.take(group.len() as int) == group);
    }
    total
}

fn quantize_delivery_to_source_interval(
    delivery_interval: Duration,
    source_interval: Duration,
) -> (r: Duration)
    ensures
        r.0 == quantized_delivery(delivery_interval.0 as int, source_interval.0 as int),
{
    if source_interval.is_zero() || delivery_interval <= source_interval {
        return source_interval;
    }
    source_interval.saturating_mul(
        rounded_up_multiple_count(delivery_interval, source_interval),
    )
}

/// The rounded-up quotient of `q` whole divisors and a remainder of up to one divisor.
pub(crate) proof fn lemma_ceil_quotient(q: int, rest: int, divisor: int)
    requires
        q >= 0,
        0 <= rest <= divisor,
        divisor > 0,
    ensures
        ceil_quotient(q * divisor + rest, divisor) == if rest == 0 {
            q
        } else {
            q + 1
        },
{
    let value = q * divisor + rest;
    assert(q * divisor >= 0) by (nonlinear_arith)
        requires
            q >= 0,
            divisor > 0,
    ;
    if rest > 0 {
        vstd::arithmetic::div_mod::lemma_fundamental_div_mod_converse(
            value - 1,
            divisor,
            q,
            rest - 1,
        );
    } else if q > 0 {
        assert(q * divisor > 0) by (nonlinear_arith)
            requires
                q > 0,
                divisor > 0,
        ;
        assert(value - 1 == (q - 1) * divisor + (divisor - 1)) by (nonlinear_arith)
            requires
                value == q * divisor,
        ;
        vstd::arithmetic::div_mod::lemma_fundamental_div_mod_converse(
            value - 1,
            divisor,
            q - 1,
            divisor - 1,
        );
    } else {
        assert(value == 0) by (nonlinear_arith)
            requires
                value == q * divisor,
                q == 0,
        ;
    }
}

/// Throttling loses and invents no frames: of the first `ticks` ticks, a consumer that is not
/// faster than the source receives as many as its own periods that began meanwhile, rounded up.
pub proof fn law_delivered_count(ticks: nat, tick_interval: Duration, target_interval: Duration)
    requires
        0 < tick_interval.0 <= target_interval.0,
    ensures
        delivered_count(ticks, tick_interval.0 as int, target_interval.0 as int) == ceil_quotient(
            ticks * tick_interval.0,
            target_interval.0 as int,
        ),
    decreases ticks,
{
    let (tick, target) = (tick_interval.0 as int, target_interval.0 as int);
    if tick == target {
        lemma_all_ticks_are_delivered(ticks, tick, target);
        lemma_ceil_quotient(ticks as int, 0, target);
    } else if ticks > 0 {
        let before = (ticks - 1) as nat;
        law_delivered_count(before, tick_interval, target_interval);
        let value = before * tick;
        assert(value >= 0) by (nonlinear_arith)
            requires
                value == before * tick,
                tick > 0,
        ;
        assert(ticks * tick == value + tick) by (nonlinear_arith)
            requires
                value == before * tick,
                ticks == before + 1,
        ;
        let (q, rest) = (value / target, value % target);
        vstd::arithmetic::div_mod::lemma_fundamental_div_mod(value, target);
        vstd::arithmetic::div_mod::lemma_div_pos_is_pos(value, target);
        assert(target * q == q * target) by (nonlinear_arith);
        lemma_ceil_quotient(q, rest, target);
        if rest + tick <= target {
            lemma_ceil_quotient(q, rest + tick, target);
        } else {
            assert((q + 1) * target == q * target + target) by (nonlinear_arith);
            lemma_ceil_quotient(q + 1, rest + tick - target, target);
        }
    } else {
        assert(ticks * tick == 0) by (nonlinear_arith)
            requires
                ticks == 0,
        ;
    }
}

/// A consumer at a whole multiple of the source interval receives evenly spaced ticks: every
/// `multiple`-th, starting with the first.
pub proof fn law_whole_multiples_are_delivered_evenly(
    index: u64,
    tick_interval: Duration,
    multiple: u64,
)
    requires
        tick_interval.0 > 0,
        multiple > 0,
    ensures
        delivers(index as int, tick_interval.0 as int, multiple * tick_interval.0) <==> index
            as int % multiple as int == 0,
{
    let (i, tick, k) = (index as int, tick_interval.0 as int, multiple as int);
    let target = k * tick;
    if k == 1 {
        assert(target == tick) by (nonlinear_arith)
            requires
                target == k * tick,
                k == 1,
        ;
        vstd::arithmetic::div_mod::lemma_fundamental_div_mod(i, 1);
    } else {
        assert(target > tick) by (nonlinear_arith)
            requires
                target == k * tick,
                k >= 2,
                tick > 0,
        ;
        let (q, r) = (i / k, i % k);
        vstd::arithmetic::div_mod::lemma_fundamental_div_mod(i, k);
        vstd::arithmetic::div_mod::lemma_div_pos_is_pos(i, k);
        assert(i * tick == q * target + r * tick) by (nonlinear_arith)
            requires
                i == k * q + r,
                target == k * tick,
        ;
        assert((i + 1) * tick == q * target + (r + 1) * tick) by (nonlinear_arith)
            requires
                i == k * q + r,
                target == k * tick,
        ;
        assert(0 <= r * tick <= target && 0 < (r + 1) * tick <= target && (r * tick == 0 <==> r
            == 0)) by (nonlinear_arith)
            requires
                0 <= r < k,
                target == k * tick,
                tick > 0,
        ;
        lemma_ceil_quotient(q, r * tick, target);
        lemma_ceil_quotient(q, (r + 1) * tick, target);
    }
}

/// The first tick is delivered to every consumer.
pub proof fn law_first_tick_is_delivered(tick_interval: Duration, target_interval: Duration)
    ensures
        delivers(0, tick_interval.0 as int, target_interval.0 as int),
{
    let (tick, target) = (tick_interval.0 as int, target_interval.0 as int);
    if tick > 0 && target > tick {
        lemma_ceil_quotient(0, tick, target);
    }
}

/// A consumer capped by `at_most` is never delivered frames closer together than the cap, on any
/// display.
pub proof fn law_at_most_is_never_exceeded(cap: Duration, display: DisplayModel)
    requires
        display.wf(),
    ensures
        ({
            let preference = FrameRatePreference::Preferred {
                min_interval: Some(cap),
                preferred_interval: cap,
                max_interval: None,
            };
            preference.planned(display) matches Some(plan) ==> plan.delivery >= cap.0
        }),
{
    display::law_preferred_interval_is_acceptable(display, cap, Some(cap), None);
}

/// Over any number of ticks, a consumer capped by `at_most` receives no more frames than the
/// capped rate allows: one for each period of the cap that began meanwhile.
pub proof fn law_at_most_caps_the_frames(
    cap: Duration,
    display: DisplayModel,
    ticks: nat,
    tick_interval: Duration,
)
    requires
        display.wf(),
        cap.0 > 0,
        tick_interval.0 > 0,
    ensures
        ({
            let preference = FrameRatePreference::Preferred {
                min_interval: Some(cap),
                preferred_interval: cap,
                max_interval: None,
            };
            preference.planned(display) matches Some(plan) ==> delivered_count(
                ticks,
                tick_interval.0 as int,
                plan.delivery,
            ) <= ceil_quotient(ticks * tick_interval.0, cap.0 as int)
        }),
{
    let preference = FrameRatePreference::Preferred {
        min_interval: Some(cap),
        preferred_interval: cap,
        max_interval: None,
    };
    law_at_most_is_never_exceeded(cap, display);
    if preference.planned(display) is Some {
        let delivery = preference.planned(display)->0.delivery;
        let tick = tick_interval.0 as int;
        let span = ticks * tick;
        assert(span >= 0) by (nonlinear_arith)
            requires
                span == ticks * tick,
                tick > 0,
        ;
        display::law_preferred_interval_is_acceptable(display, cap, Some(cap), None);
        if delivery > tick {
            assert(delivery <= u64::MAX);
            law_delivered_count(ticks, tick_interval, Duration(delivery as u64));
            if span > 0 {
                vstd::arithmetic::div_mod::lemma_div_is_ordered_by_denominator(
                    span - 1,
                    cap.0 as int,
                    delivery,
                );
            }
        } else {
            lemma_all_ticks_are_delivered(ticks, tick, delivery);
            if ticks > 0 {
                let periods = (ticks - 1) * cap.0;
                assert(span - 1 >= periods) by (nonlinear_arith)
                    requires
                        span == ticks * tick,
                        periods == (ticks - 1) * cap.0,
                        tick >= cap.0,
                        cap.0 > 0,
                        ticks > 0,
                ;
                vstd::arithmetic::div_mod::lemma_div_is_ordered(
                    periods,
                    span - 1,
                    cap.0 as int,
                );
                vstd::arithmetic::div_mod::lemma_div_by_multiple(ticks - 1, cap.0 as int);
                assert(span > 0) by (nonlinear_arith)
                    requires
                        span == ticks * tick,
                        ticks > 0,
                        tick > 0,
                ;
            }
        }
    }
}

/// A consumer at least as fast as the source receives every tick.
proof fn lemma_all_ticks_are_delivered(ticks: nat, tick: int, target: int)
    requires
        target <= tick,
    ensures
        delivered_count(ticks, tick, target) == ticks,
    decreases ticks,
{
    if ticks > 0 {
        lemma_all_ticks_are_delivered((ticks - 1) as nat, tick, target);
    }
}

/// On a fixed-rate display `at_most` chooses the nearest clean cadence that does not exceed the
/// cap: the smallest whole number of refreshes that is at least as long. Some number must be:
/// `multiple` is one of them.
pub proof fn law_at_most_is_clean_on_fixed_displays(
    cap: Duration,
    interval: Duration,
    multiple: nat,
)
    requires
        interval.0 > 0,
        cap.0 <= multiple * interval.0 <= u64::MAX,
    ensures
        ({
            let base = interval.0 as int;
            let display = DisplayModel { min: base, max: base, granularity: Some(base) };
            let preference = FrameRatePreference::Preferred {
                min_interval: Some(cap),
                preferred_interval: cap,
                max_interval: None,
            };
            &&& preference.planned(display) matches Some(plan)
            &&& plan.source == base
            &&& plan.delivery % base == 0
            &&& plan.delivery >= base
            &&& plan.delivery >= cap.0
            &&& plan.delivery > base ==> plan.delivery - base < cap.0
        }),
{
    let base = interval.0 as int;
    let display = DisplayModel { min: base, max: base, granularity: Some(base) };
    let lo = display.acceptable_min(display::optional_nanos(Some(cap)));
    if cap.0 <= interval.0 {
        vstd::arithmetic::div_mod::lemma_div_by_self(base);
        assert(base * 1 == base);
        vstd::arithmetic::div_mod::lemma_mod_self_0(base);
    } else {
        display::lemma_nearest_multiple_reaches(lo, base, multiple as int);
    }
}

/// On a display that only reports a range, `at_most` is served from the fastest interval by the
/// smallest whole number of them that does not exceed the cap. Some number must not: `multiple` is
/// one of them, and for a cap slower than the display's slowest interval, no more than the allowed
/// divisor.
pub proof fn law_at_most_is_clean_without_granularity(
    cap: Duration,
    display: DisplayModel,
    multiple: nat,
)
    requires
        display.wf(),
        0 < display.min,
        display.granularity is None,
        cap.0 <= multiple * display.min <= u64::MAX,
        cap.0 <= display.max || multiple <= display::MAX_FRAME_RATE_DIVISOR,
    ensures
        ({
            let preference = FrameRatePreference::Preferred {
                min_interval: Some(cap),
                preferred_interval: cap,
                max_interval: None,
            };
            &&& preference.planned(display) matches Some(plan)
            &&& plan.source == display.min
            &&& plan.delivery % display.min == 0
            &&& plan.delivery >= display.min
            &&& plan.delivery >= cap.0
            &&& plan.delivery > display.min ==> plan.delivery - display.min < cap.0
        }),
{
    let preference = FrameRatePreference::Preferred {
        min_interval: Some(cap),
        preferred_interval: cap,
        max_interval: None,
    };
    display::law_capped_interval_is_clean(display, cap, multiple);
    display::law_source_is_fastest_without_granularity(
        display,
        preference.planned_delivery(display)->0,
    );
}

/// Every planned source interval is one that the display supports.
pub proof fn law_planned_source_is_supported(
    preference: FrameRatePreference,
    display: DisplayModel,
)
    requires
        display.wf(),
    ensures
        preference.planned(display) matches Some(plan) ==> {
            &&& 0 < plan.source
            &&& display.min <= plan.source <= display.max
        },
{
    if preference.planned(display) is Some {
        display::law_source_interval_is_supported(display, preference.planned_delivery(display)->0);
    }
}

/// The source chosen for a group is one that the display supports, and there is only one best.
pub proof fn law_group_source_is_supported(
    source: int,
    preferences: Seq<FrameRatePreference>,
    display: DisplayModel,
)
    requires
        display.wf(),
        is_best_source(source, preferences, display),
    ensures
        display.min <= source <= display.max,
        forall|other: int| is_best_source(other, preferences, display) ==> other == source,
{
    if source != display.min {
        let i = choose|i: int|
            0 <= i < preferences.len() && (#[trigger] preferences[i]).planned(display) is Some
                && preferences[i].planned(display)->0.source == source;
        law_planned_source_is_supported(preferences[i], display);
    }
}

/// A tick is delivered to a slower consumer exactly when one of the consumer's periods begins
/// within it; a consumer at least as fast as the source, and one without a source interval,
/// receives every tick.
pub proof fn law_ticks_are_delivered_when_a_period_begins(
    index: u64,
    tick_interval: Duration,
    target_interval: Duration,
)
    ensures
        ({
            let i = index as int;
            let (tick, target) = (tick_interval.0 as int, target_interval.0 as int);
            &&& tick == 0 || target <= tick ==> delivers(i, tick, target)
            &&& 0 < tick < target ==> (delivers(i, tick, target) <==> exists|period: int|
                i * tick <= #[trigger] (period * target) < (i + 1) * tick)
        }),
{
    let (i, tick, target) = (index as int, tick_interval.0 as int, target_interval.0 as int);
    if 0 < tick < target {
        let (before, after) = (i * tick, (i + 1) * tick);
        assert(after == before + tick && before >= 0) by (nonlinear_arith)
            requires
                before == i * tick,
                after == (i + 1) * tick,
                i >= 0,
                tick > 0,
        ;
        let (b, a) = (ceil_quotient(before, target), ceil_quotient(after, target));
        lemma_ceil_quotient_bounds(before, target);
        lemma_ceil_quotient_bounds(after, target);
        if a > b {
            assert(b * target <= (a - 1) * target) by (nonlinear_arith)
                requires
                    b <= a - 1,
                    target > 0,
            ;
            assert(before <= b * target < after);
        }
        if exists|period: int| before <= #[trigger] (period * target) < after {
            let period = choose|period: int| before <= #[trigger] (period * target) < after;
            assert(b <= period) by (nonlinear_arith)
                requires
                    (b - 1) * target < period * target,
                    target > 0,
            ;
            assert(a > period) by (nonlinear_arith)
                requires
                    period * target < a * target,
                    target > 0,
            ;
        }
    }
}

/// What the rounded-up quotient lies between.
proof fn lemma_ceil_quotient_bounds(value: int, divisor: int)
    requires
        value >= 0,
        divisor > 0,
    ensures
        value <= ceil_quotient(value, divisor) * divisor,
        (ceil_quotient(value, divisor) - 1) * divisor < value,
{
    if value > 0 {
        let q = (value - 1) / divisor;
        vstd::arithmetic::div_mod::lemma_fundamental_div_mod(value - 1, divisor);
        assert((q + 1) * divisor == divisor * q + divisor) by (nonlinear_arith);
        assert(q * divisor == divisor * q) by (nonlinear_arith);
    } else {
        assert(0 * divisor == 0 && (0 - 1) * divisor == -divisor) by (nonlinear_arith);
    }
}

/// A rounded-up quotient is the smallest whole number that reaches the value.
pub proof fn law_rounding_up_reaches_the_value(value: nat, divisor: u64, other: nat)
    requires
        divisor > 0,
    ensures
        ceil_quotient(value as int, divisor as int) * divisor >= value,
        other * divisor >= value ==> ceil_quotient(value as int, divisor as int) <= other,
{
    let (v, d) = (value as int, divisor as int);
    lemma_ceil_quotient_bounds(v, d);
    if other * d >= v {
        let c = ceil_quotient(v, d);
        assert(c <= other) by (nonlinear_arith)
            requires
                (c - 1) * d < v,
                v <= other * d,
                d > 0,
        ;
    }
}

/// A preference is planned by the display's own choices for exactly its intervals: there is no plan
/// without throttling, nor where the display has no interval to offer, and otherwise the consumer
/// gets what the display chooses for it and the source what the display chooses for that.
pub proof fn law_plans_are_the_choices_of_the_display(
    min_interval: Option<Duration>,
    preferred_interval: Duration,
    max_interval: Option<Duration>,
    display: DisplayModel,
)
    ensures
        FrameRatePreference::Full.planned(display) is None,
        ({
            let preference = FrameRatePreference::Preferred {
                min_interval,
                preferred_interval,
                max_interval,
            };
            let delivery = display.preferred_interval(
                preferred_interval.0 as int,
                match min_interval {
                    Some(interval) => Some(interval.0 as int),
                    None => None,
                },
                match max_interval {
                    Some(interval) => Some(interval.0 as int),
                    None => None,
                },
            );
            let source = display.source_for_delivery(delivery);
            &&& preference.planned(display) is Some <==> delivery != 0 && source != 0
            &&& preference.planned(display) matches Some(plan) ==> plan.delivery == delivery
                && plan.source == source
        }),
{
}

/// By how much a source misses a consumer: the distance from the consumer's delivery interval to
/// the interval between source ticks at which it can be served. That is a whole number of source
/// intervals, at least one, that contains the delivery interval, an overrun of a microsecond
/// forgiven, and the smallest such number. Distances up to a microsecond count as none. So a source
/// that is slower than a consumer misses it by the difference. `multiple` is a number of source
/// intervals that contains the delivery interval. A consumer without a plan is not missed.
pub proof fn law_sources_miss_a_consumer_by_the_distance(
    source: Duration,
    preference: FrameRatePreference,
    display: DisplayModel,
    multiple: nat,
)
    requires
        source.0 > 0,
        preference.planned(display) matches Some(plan) ==> 0 < plan.delivery <= multiple * source.0
            <= u64::MAX,
    ensures
        preference.planned(display) is None ==> member_error(
            source.0 as int,
            preference,
            display,
        ) == 0,
        preference.planned(display) matches Some(plan) ==> {
            let served = quantized_delivery(plan.delivery, source.0 as int);
            let error = member_error(source.0 as int, preference, display);
            let distance = if served >= plan.delivery {
                served - plan.delivery
            } else {
                plan.delivery - served
            };
            &&& served % (source.0 as int) == 0
            &&& served >= source.0
            &&& served + 1_000 >= plan.delivery
            &&& served > source.0 ==> served - source.0 < plan.delivery
            &&& error == if distance <= 1_000 {
                0
            } else {
                distance
            }
            &&& source.0 > plan.delivery + 1_000 ==> error == source.0 - plan.delivery
            &&& plan.delivery >= source.0 && plan.delivery % (source.0 as int) <= 1_000 ==> error
                == 0
        },
{
    if preference.planned(display) is Some {
        let (delivery, base) = (preference.planned(display)->0.delivery, source.0 as int);
        lemma_quantized_delivery(delivery, base, multiple);
    }
}

/// The interval at which a source serves a consumer.
proof fn lemma_quantized_delivery(delivery: int, source: int, multiple: nat)
    requires
        0 < source <= u64::MAX,
        0 < delivery <= multiple * source <= u64::MAX,
    ensures
        ({
            let served = quantized_delivery(delivery, source);
            &&& served % source == 0
            &&& served >= source
            &&& served + 1_000 >= delivery
            &&& served > source ==> served - source < delivery
            &&& delivery >= source && delivery % source <= 1_000 ==> served <= delivery <= served
                + 1_000
        }),
{
    let base = Duration(source as u64);
    let model = DisplayModel { min: source, max: source, granularity: Some(source) };
    if delivery <= source {
        vstd::arithmetic::div_mod::lemma_mod_self_0(source);
    } else {
        display::law_fixed_displays_choose_whole_refreshes(
            model,
            Duration(delivery as u64),
            multiple,
        );
        let count = display::covering_multiples(delivery, source);
        assert(count >= 1) by {
            vstd::arithmetic::div_mod::lemma_fundamental_div_mod(delivery, source);
            let sum = time::sat_duration(delivery + source - 1);
            vstd::arithmetic::div_mod::lemma_fundamental_div_mod(sum, source);
            let (floor, ceiling) = (delivery / source, sum / source);
            assert(floor >= 1) by (nonlinear_arith)
                requires
                    source * floor + delivery % source == delivery,
                    delivery % source < source,
                    delivery > source,
            ;
            assert(ceiling >= 1) by (nonlinear_arith)
                requires
                    source * ceiling + sum % source == sum,
                    sum % source < source,
                    sum >= source,
            ;
        }
        assert(model.interval_for(delivery) == quantized_delivery(delivery, source));
    }
}

/// A group is missed by the sum of what its members are missed by: one more member adds its own
/// part, and an empty group is not missed.
pub proof fn law_group_errors_add_up(
    source: int,
    preferences: Seq<FrameRatePreference>,
    preference: FrameRatePreference,
    display: DisplayModel,
)
    ensures
        group_error(source, Seq::empty(), display) == 0,
        group_error(source, preferences.push(preference), display) == group_error(
            source,
            preferences,
            display,
        ) + member_error(source, preference, display),
{
    assert(preferences.push(preference).drop_last() =~= preferences);
}

/// No part of a group is missed by less than nothing, nor by more than the group.
proof fn lemma_member_errors(
    source: int,
    preferences: Seq<FrameRatePreference>,
    display: DisplayModel,
)
    ensures
        group_error(source, preferences, display) >= 0,
        forall|i: int|
            0 <= i < preferences.len() ==> 0 <= member_error(
                source,
                #[trigger] preferences[i],
                display,
            ) <= group_error(source, preferences, display),
        (forall|i: int|
            0 <= i < preferences.len() ==> member_error(source, #[trigger] preferences[i], display)
                == 0) ==> group_error(source, preferences, display) == 0,
    decreases preferences.len(),
{
    if preferences.len() > 0 {
        let fewer = preferences.drop_last();
        lemma_member_errors(source, fewer, display);
        assert forall|i: int| 0 <= i < preferences.len() implies 0 <= member_error(
            source,
            #[trigger] preferences[i],
            display,
        ) <= group_error(source, preferences, display) by {
            if i < fewer.len() {
                assert(fewer[i] == preferences[i]);
            }
        }
        if forall|i: int|
            0 <= i < preferences.len() ==> member_error(source, #[trigger] preferences[i], display)
                == 0 {
            assert forall|i: int| 0 <= i < fewer.len() implies member_error(
                source,
                #[trigger] fewer[i],
                display,
            ) == 0 by {
                assert(fewer[i] == preferences[i]);
            }
            assert(member_error(source, preferences[preferences.len() - 1], display) == 0);
        }
    }
}

/// The source chosen for a group is the display's fastest interval or one that a member is planned
/// with; no other of these misses the group by less, and of those that miss it equally the slowest
/// is chosen. `other` is the fastest interval or the source of the member at `place`.
pub proof fn law_group_source_misses_the_group_least(
    source: int,
    preferences: Seq<FrameRatePreference>,
    display: DisplayModel,
    other: int,
    place: int,
)
    requires
        is_best_source(source, preferences, display),
        other == display.min || 0 <= place < preferences.len() && (
        preferences[place].planned(display) matches Some(plan) && plan.source == other),
    ensures
        source == display.min || exists|i: int|
            0 <= i < preferences.len() && ((
            #[trigger] preferences[i]).planned(display) matches Some(plan)
                && plan.source == source),
        group_error(source, preferences, display) <= group_error(other, preferences, display),
        group_error(source, preferences, display) == group_error(other, preferences, display)
            ==> source >= other,
{
    assert(is_source_candidate(other, preferences, display));
    if source != display.min {
        let i = choose|i: int|
            0 <= i < preferences.len() && (#[trigger] preferences[i]).planned(display) is Some
                && preferences[i].planned(display)->0.source == source;
        assert(preferences[i].planned(display)->0.source == source);
    }
}

/// No member of a group is starved where it need not be. Where some source that could be chosen
/// serves every member at a whole number of its intervals, up to a microsecond, the chosen source
/// is slower than no member, up to a microsecond. `other` is such a source: the fastest interval or
/// that of the member at `place`.
pub proof fn law_groups_are_not_starved(
    source: int,
    preferences: Seq<FrameRatePreference>,
    display: DisplayModel,
    other: int,
    place: int,
)
    requires
        display.wf(),
        is_best_source(source, preferences, display),
        0 < other <= u64::MAX,
        other == display.min || 0 <= place < preferences.len() && (
        preferences[place].planned(display) matches Some(plan) && plan.source == other),
        forall|i: int|
            0 <= i < preferences.len() ==> ((
            #[trigger] preferences[i]).planned(display) matches Some(plan)
                && other <= plan.delivery <= u64::MAX && plan.delivery % other <= 1_000),
    ensures
        forall|i: int|
            0 <= i < preferences.len() ==> ((
            #[trigger] preferences[i]).planned(display) matches Some(plan)
                && source <= plan.delivery + 1_000),
{
    law_group_source_misses_the_group_least(source, preferences, display, other, place);
    lemma_member_errors(source, preferences, display);
    lemma_member_errors(other, preferences, display);
    assert forall|i: int| 0 <= i < preferences.len() implies member_error(
        other,
        #[trigger] preferences[i],
        display,
    ) == 0 by {
        let delivery = preferences[i].planned(display)->0.delivery;
        vstd::arithmetic::div_mod::lemma_fundamental_div_mod(delivery, other);
        if delivery > other {
            assert(other * (delivery / other) <= delivery);
        }
    }
    assert(group_error(other, preferences, display) == 0);
    assert forall|i: int| 0 <= i < preferences.len() implies ((
    #[trigger] preferences[i]).planned(display) matches Some(plan) && source <= plan.delivery
        + 1_000) by {
        let delivery = preferences[i].planned(display)->0.delivery;
        assert(member_error(source, preferences[i], display) == 0);
        assert(other <= delivery);
        if source > delivery + 1_000 {
            assert(quantized_delivery(delivery, source) == source);
        }
    }
}

/// A group is throttled only as a whole: unless it has members and every one of them has a plan,
/// the display runs at its fastest interval, as the contract of the choice says.
pub proof fn law_groups_are_throttled_as_a_whole(
    preferences: Seq<FrameRatePreference>,
    display: DisplayModel,
    place: int,
)
    ensures
        preferences.len() == 0 ==> !all_planned(preferences, display),
        0 <= place < preferences.len() && preferences[place].planned(display) is None
            ==> !all_planned(preferences, display),
        0 <= place < preferences.len() && all_planned(preferences, display)
            ==> preferences[place].planned(display) is Some,
        preferences.len() > 0 && (forall|i: int|
            0 <= i < preferences.len() ==> (#[trigger] preferences[i]).planned(display) is Some)
            ==> all_planned(preferences, display),
{
}

} // verus!
