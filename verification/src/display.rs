//! Display timing constraints and the intervals a display can be driven at.

use crate::time::{self, longer, shorter, Duration};
use vstd::prelude::*;

verus! {

/// Differences up to this many nanoseconds count as rounding noise, not as lost time.
pub const TIMING_QUANTIZATION_TOLERANCE_NS: u64 = 1_000;

/// A consumer is served by at most this many source ticks per delivered frame.
pub const MAX_FRAME_RATE_DIVISOR: u64 = 16;

/// What a display can do, in nanoseconds.
pub struct DisplayModel {
    /// The fastest supported interval.
    pub min: int,
    /// The slowest supported interval.
    pub max: int,
    /// The step between supported intervals, where the display reports one.
    pub granularity: Option<int>,
}

/// How many times `interval` must be repeated to cover `needed`, forgiving an overrun within the
/// tolerance. The sum that rounds up is capped at the longest duration.
pub open spec fn covering_multiples(needed: int, interval: int) -> int {
    if interval == 0 {
        0
    } else if needed >= interval && needed % interval <= TIMING_QUANTIZATION_TOLERANCE_NS {
        needed / interval
    } else {
        time::sat_duration(needed + interval - 1) / interval
    }
}

/// The distance between two intervals.
pub open spec fn gap(a: int, b: int) -> int {
    if a >= b {
        a - b
    } else {
        b - a
    }
}

/// The distance between two intervals, with rounding noise taken as none.
pub open spec fn tolerant_gap(a: int, b: int) -> int {
    if gap(a, b) <= TIMING_QUANTIZATION_TOLERANCE_NS {
        0
    } else {
        gap(a, b)
    }
}

/// The candidate nearer to `preferred` among those in `lo..=hi`, the first of the two on a tie;
/// `preferred` moved into the range when neither lies in it.
pub open spec fn nearer_within(a: int, b: int, preferred: int, lo: int, hi: int) -> int {
    if lo <= a <= hi && (gap(a, preferred) <= gap(b, preferred) || !(lo <= b <= hi)) {
        a
    } else if lo <= b <= hi {
        b
    } else {
        time::clamped(preferred, lo, hi)
    }
}

/// The whole multiple of `base` nearest to `preferred` within `lo..=hi`, out of the last multiple
/// up to `preferred` (at least one `base`) and the next.
pub open spec fn nearest_multiple(preferred: int, lo: int, hi: int, base: int) -> int {
    if base == 0 {
        0
    } else {
        let count = time::larger(1, preferred / base);
        nearer_within(
            time::sat_duration(base * count),
            time::sat_duration(base * (count + 1)),
            preferred,
            lo,
            hi,
        )
    }
}

/// The whole number of steps nearest to `preferred` within `lo..=hi`, out of the last up to
/// `preferred` and the next.
pub open spec fn nearest_step(preferred: int, lo: int, hi: int, step: int) -> int {
    let count = preferred / step;
    nearer_within(step * count, time::sat_duration(step * (count + 1)), preferred, lo, hi)
}

/// `interval` divided by `divisor`, rounded to nearest.
pub open spec fn divided(interval: int, divisor: int) -> int {
    if divisor <= 1 {
        interval
    } else {
        time::sat_duration(interval + divisor / 2) / divisor
    }
}

impl DisplayModel {
    /// The fastest interval is not slower than the slowest.
    pub open spec fn wf(self) -> bool {
        &&& 0 <= self.min <= self.max <= u64::MAX
        &&& self.granularity matches Some(step) ==> 0 <= step <= u64::MAX
    }

    /// The step between supported intervals when it restricts them: a step of zero says nothing,
    /// and a step of one fastest interval is how a display reports no finer control.
    pub open spec fn effective_step(self) -> Option<int> {
        match self.granularity {
            Some(step) if step != 0 && step != self.min => Some(step),
            _ => None,
        }
    }

    /// The interval the display runs at when a source interval of `source` is asked for.
    pub open spec fn source_near(self, source: int) -> int {
        match self.effective_step() {
            Some(step) => nearest_step(
                time::clamped(source, self.min, self.max),
                self.min,
                self.max,
                step,
            ),
            None => if self.granularity is Some {
                time::clamped(source, self.min, self.max)
            } else {
                self.min
            },
        }
    }

    /// The source interval from which every `divisor`-th tick comes near `wanted`.
    pub open spec fn divided_source(self, wanted: int, divisor: int) -> int {
        self.source_near(divided(wanted, divisor))
    }

    /// The interval between every `divisor`-th tick of [`Self::divided_source`].
    pub open spec fn divided_delivery(self, wanted: int, divisor: int) -> int {
        time::sat_duration(self.divided_source(wanted, divisor) * divisor)
    }

    /// Dividing by `divisor` is allowed and gives a delivery interval in `lo..=hi`.
    pub open spec fn delivers_within(self, wanted: int, lo: int, hi: int, divisor: int) -> bool {
        &&& 1 <= divisor <= MAX_FRAME_RATE_DIVISOR
        &&& lo <= self.divided_delivery(wanted, divisor) <= hi
    }

    /// Of the divisors that [`Self::delivers_within`] admits, `divisor` misses `wanted` by the
    /// least, and is the smallest that does so.
    pub open spec fn best_delivery_divisor(
        self,
        wanted: int,
        lo: int,
        hi: int,
        divisor: int,
    ) -> bool {
        &&& self.delivers_within(wanted, lo, hi, divisor)
        &&& forall|other: int| #[trigger]
            self.delivers_within(wanted, lo, hi, other) ==> {
                let e = tolerant_gap(self.divided_delivery(wanted, divisor), wanted);
                let f = tolerant_gap(self.divided_delivery(wanted, other), wanted);
                e < f || e == f && divisor <= other
            }
    }

    /// The delivery interval near `wanted` and within `lo..=hi` for a consumer slower than the
    /// display's slowest interval: the best division of a source interval, or a multiple of the
    /// slowest interval when no division fits.
    pub open spec fn slow_delivery(self, wanted: int, lo: int, hi: int) -> int {
        if exists|divisor: int| self.delivers_within(wanted, lo, hi, divisor) {
            let divisor = choose|divisor: int| self.best_delivery_divisor(wanted, lo, hi, divisor);
            self.divided_delivery(wanted, divisor)
        } else {
            nearest_multiple(wanted, lo, hi, self.max)
        }
    }

    /// Dividing by `divisor` is allowed and asks the display for an interval that it supports.
    pub open spec fn sources_by(self, delivery: int, divisor: int) -> bool {
        &&& 1 <= divisor <= MAX_FRAME_RATE_DIVISOR
        &&& self.min <= self.divided_source(delivery, divisor) <= self.max
    }

    /// Of the divisors that [`Self::sources_by`] admits, `divisor` reconstructs `delivery` with
    /// the least error, and is the smallest that does so.
    pub open spec fn best_source_divisor(self, delivery: int, divisor: int) -> bool {
        &&& self.sources_by(delivery, divisor)
        &&& forall|other: int| #[trigger]
            self.sources_by(delivery, other) ==> {
                let e = tolerant_gap(self.divided_delivery(delivery, divisor), delivery);
                let f = tolerant_gap(self.divided_delivery(delivery, other), delivery);
                e < f || e == f && divisor <= other
            }
    }

    /// The source interval for a consumer outside the display's direct range.
    pub open spec fn slow_source(self, delivery: int) -> int {
        if exists|divisor: int| self.sources_by(delivery, divisor) {
            let divisor = choose|divisor: int| self.best_source_divisor(delivery, divisor);
            self.divided_source(delivery, divisor)
        } else {
            time::clamped(delivery, self.min, self.max)
        }
    }

    /// The interval chosen to contain `needed` of work.
    pub open spec fn interval_for(self, needed: int) -> int {
        if self.effective_step() is Some {
            let step = self.effective_step()->0;
            let count = covering_multiples(time::clamped(needed, self.min, self.max), step);
            time::clamped(time::sat_duration(count * step), self.min, self.max)
        } else if self.min == self.max {
            time::sat_duration(self.min * time::larger(covering_multiples(needed, self.min), 1))
        } else if self.granularity is None {
            nearest_multiple(needed, needed, u64::MAX as int, self.min)
        } else {
            time::clamped(needed, self.min, self.max)
        }
    }

    /// The shortest acceptable interval: what the consumer accepts, but no faster than the
    /// display.
    pub open spec fn acceptable_min(self, min_interval: Option<int>) -> int {
        match min_interval {
            Some(m) => time::larger(m, self.min),
            None => self.min,
        }
    }

    /// The longest acceptable interval.
    pub open spec fn acceptable_max(self, max_interval: Option<int>) -> int {
        match max_interval {
            Some(m) => m,
            None => u64::MAX as int,
        }
    }

    /// The interval chosen for a preferred cadence and an acceptable range.
    pub open spec fn preferred_interval(
        self,
        preferred: int,
        min_interval: Option<int>,
        max_interval: Option<int>,
    ) -> int {
        let lo = self.acceptable_min(min_interval);
        let hi = self.acceptable_max(max_interval);
        let wanted = time::clamped(preferred, lo, hi);
        if lo > hi {
            self.interval_for(preferred)
        } else if self.min == self.max {
            nearest_multiple(wanted, lo, hi, self.min)
        } else if lo > self.max {
            self.slow_delivery(wanted, lo, hi)
        } else if self.effective_step() is Some {
            nearest_step(wanted, lo, time::smaller(hi, self.max), self.effective_step()->0)
        } else if self.granularity is Some {
            time::clamped(wanted, lo, time::smaller(hi, self.max))
        } else {
            nearest_multiple(wanted, lo, hi, self.min)
        }
    }

    /// The source interval that best supports `delivery`.
    pub open spec fn source_for_delivery(self, delivery: int) -> int {
        if self.min == self.max {
            self.min
        } else if !(self.min <= delivery <= self.max) {
            self.slow_source(delivery)
        } else {
            self.source_near(delivery)
        }
    }
}

/// Display timing constraints observed by the platform layer.
#[derive(Clone, Copy, Debug, PartialEq, Eq, Structural)]
pub struct DisplayTiming {
    min_interval: Duration,
    max_interval: Duration,
    granularity: Option<Duration>,
}

/// The nanoseconds of an optional duration.
pub open spec fn optional_nanos(d: Option<Duration>) -> Option<int> {
    match d {
        Some(d) => Some(d.0 as int),
        None => None,
    }
}

impl View for DisplayTiming {
    type V = DisplayModel;

    closed spec fn view(&self) -> DisplayModel {
        DisplayModel {
            min: self.min_interval.0 as int,
            max: self.max_interval.0 as int,
            granularity: optional_nanos(self.granularity),
        }
    }
}

impl DisplayTiming {
    /// Creates a fixed-rate display timing model.
    #[must_use]
    pub fn fixed(interval: Duration) -> (r: Self)
        ensures
            r@ == (DisplayModel {
                min: interval.0 as int,
                max: interval.0 as int,
                granularity: Some(interval.0 as int),
            }),
            r@.wf(),
    {
        Self { min_interval: interval, max_interval: interval, granularity: Some(interval) }
    }

    /// Creates a variable-refresh timing model.
    ///
    /// `min_interval` is the fastest interval, `max_interval` is the slowest interval, and
    /// `granularity` can describe fixed supported steps when a platform reports them. Pass
    /// `None` for continuous VRR. The minimum should not exceed the maximum; if it does, it
    /// stands for both.
    #[must_use]
    pub fn variable(
        min_interval: Duration,
        max_interval: Duration,
        granularity: Option<Duration>,
    ) -> (r: Self)
        ensures
            r@ == (DisplayModel {
                min: min_interval.0 as int,
                max: time::larger(max_interval.0 as int, min_interval.0 as int),
                granularity: optional_nanos(granularity),
            }),
            r@.wf(),
    {
        Self { min_interval, max_interval: longer(max_interval, min_interval), granularity }
    }

    /// The fastest supported frame interval.
    #[must_use]
    pub fn min_interval(self) -> (r: Duration)
        ensures
            r.0 == self@.min,
    {
        self.min_interval
    }

    /// The slowest supported frame interval.
    #[must_use]
    pub fn max_interval(self) -> (r: Duration)
        ensures
            r.0 == self@.max,
    {
        self.max_interval
    }

    /// The fixed interval step for displays that expose discrete cadences.
    #[must_use]
    pub fn granularity(self) -> (r: Option<Duration>)
        ensures
            optional_nanos(r) == self@.granularity,
    {
        self.granularity
    }

    /// Returns true for a display with a range of supported intervals.
    #[must_use]
    pub fn is_variable(self) -> (r: bool)
        ensures
            r == (self@.min != self@.max),
    {
        self.min_interval != self.max_interval
    }

    /// The step between supported intervals when it restricts them.
    fn effective_step(self) -> (r: Option<Duration>)
        ensures
            optional_nanos(r) == self@.effective_step(),
            r matches Some(step) ==> step.0 > 0,
    {
        match self.granularity {
            Some(step) => if !step.is_zero() && step != self.min_interval {
                Some(step)
            } else {
                None
            },
            None => None,
        }
    }

    /// Chooses the smallest supported interval that can contain `needed`.
    #[must_use]
    pub fn choose_interval(self, needed: Duration) -> (r: Duration)
        ensures
            r.0 == self@.interval_for(needed.0 as int),
    {
        let clamped_need = needed.clamp(self.min_interval, self.max_interval);
        match self.effective_step() {
            Some(step) => {
                let steps: u64 = rounded_up_multiple_count(clamped_need, step);
                proof {
                    assert(steps * step.0 == step.0 * steps) by (nonlinear_arith);
                }
                step.saturating_mul(steps).clamp(self.min_interval, self.max_interval)
            },
            None => {
                if self.min_interval == self.max_interval {
                    let multiples: u64 = rounded_up_multiple_count(needed, self.min_interval);
                    let count: u64 = if multiples >= 1 {
                        multiples
                    } else {
                        1
                    };
                    self.min_interval.saturating_mul(count)
                } else if self.granularity.is_none() {
                    choose_fixed_multiple_interval(
                        needed,
                        needed,
                        Duration(u64::MAX),
                        self.min_interval,
                    )
                } else {
                    clamped_need
                }
            },
        }
    }

    /// Chooses a supported interval for a preferred cadence and acceptable interval range.
    #[must_use]
    pub fn choose_preferred_interval(
        self,
        preferred: Duration,
        min_interval: Option<Duration>,
        max_interval: Option<Duration>,
    ) -> (r: Duration)
        ensures
            r.0 == self@.preferred_interval(
                preferred.0 as int,
                optional_nanos(min_interval),
                optional_nanos(max_interval),
            ),
    {
        let acceptable_min = longer(min_interval.unwrap_or(self.min_interval), self.min_interval);
        let acceptable_max = max_interval.unwrap_or(Duration(u64::MAX));
        if acceptable_min > acceptable_max {
            return self.choose_interval(preferred);
        }
        let wanted = preferred.clamp(acceptable_min, acceptable_max);

        if self.min_interval == self.max_interval {
            return choose_fixed_multiple_interval(
                wanted,
                acceptable_min,
                acceptable_max,
                self.min_interval,
            );
        }
        if acceptable_min > self.max_interval {
            return choose_variable_multiple_delivery_interval(
                wanted,
                acceptable_min,
                acceptable_max,
                self,
            );
        }
        let direct_max = shorter(acceptable_max, self.max_interval);
        match self.effective_step() {
            Some(step) => choose_nearest_stepped_interval(wanted, acceptable_min, direct_max, step),
            None => if self.granularity.is_some() {
                wanted.clamp(acceptable_min, direct_max)
            } else {
                choose_fixed_multiple_interval(
                    wanted,
                    acceptable_min,
                    acceptable_max,
                    self.min_interval,
                )
            },
        }
    }

    /// Chooses the frame-source interval that best supports `delivery_interval`.
    ///
    /// Fixed-rate displays always use the hardware interval. Variable-refresh displays that
    /// report their steps can choose a faster direct cadence and let a consumer divide it down:
    /// a 30 Hz consumer may be served by every other tick of a 60 Hz source. Displays that only
    /// report a broad range are driven at their fastest interval.
    #[must_use]
    pub fn choose_source_interval_for_delivery(self, delivery_interval: Duration) -> (r: Duration)
        ensures
            r.0 == self@.source_for_delivery(delivery_interval.0 as int),
    {
        if self.min_interval == self.max_interval {
            return self.min_interval;
        }
        if delivery_interval >= self.min_interval && delivery_interval <= self.max_interval {
            return quantize_variable_source_interval(delivery_interval, self);
        }
        choose_variable_source_interval_for_delivery(delivery_interval, self)
    }
}

fn choose_fixed_multiple_interval(
    preferred: Duration,
    min_interval: Duration,
    max_interval: Duration,
    base_interval: Duration,
) -> (r: Duration)
    ensures
        r.0 == nearest_multiple(
            preferred.0 as int,
            min_interval.0 as int,
            max_interval.0 as int,
            base_interval.0 as int,
        ),
{
    if base_interval.is_zero() {
        return Duration(0);
    }
    let quotient: u64 = preferred.0 / base_interval.0;
    let floor_multiple: u64 = if quotient >= 1 {
        quotient
    } else {
        1
    };
    let next_multiple: u64 = floor_multiple.saturating_add(1);
    let below = base_interval.saturating_mul(floor_multiple);
    let above = base_interval.saturating_mul(next_multiple);
    proof {
        let base = base_interval.0 as int;
        if floor_multiple == u64::MAX {
            assert(base * u64::MAX >= u64::MAX && base * (u64::MAX + 1) >= u64::MAX)
                by (nonlinear_arith)
                requires
                    base >= 1,
            ;
        }
    }
    choose_nearer_within(below, above, preferred, min_interval, max_interval)
}

fn choose_nearest_stepped_interval(
    preferred: Duration,
    min_interval: Duration,
    max_interval: Duration,
    step: Duration,
) -> (r: Duration)
    requires
        step.0 > 0,
    ensures
        r.0 == nearest_step(
            preferred.0 as int,
            min_interval.0 as int,
            max_interval.0 as int,
            step.0 as int,
        ),
{
    let floor_steps: u64 = preferred.0 / step.0;
    let next_steps: u64 = floor_steps.saturating_add(1);
    let below = step.saturating_mul(floor_steps);
    let above = step.saturating_mul(next_steps);
    proof {
        let size = step.0 as int;
        vstd::arithmetic::div_mod::lemma_fundamental_div_mod(preferred.0 as int, size);
        if floor_steps == u64::MAX {
            assert(size * u64::MAX >= u64::MAX && size * (u64::MAX + 1) >= u64::MAX)
                by (nonlinear_arith)
                requires
                    size >= 1,
            ;
        }
    }
    choose_nearer_within(below, above, preferred, min_interval, max_interval)
}

fn choose_nearer_within(
    first: Duration,
    second: Duration,
    preferred: Duration,
    min_interval: Duration,
    max_interval: Duration,
) -> (r: Duration)
    ensures
        r.0 == nearer_within(
            first.0 as int,
            second.0 as int,
            preferred.0 as int,
            min_interval.0 as int,
            max_interval.0 as int,
        ),
{
    let first_fits = first >= min_interval && first <= max_interval;
    let second_fits = second >= min_interval && second <= max_interval;
    let first_nearer = interval_error(first, preferred) <= interval_error(second, preferred);
    if first_fits && (first_nearer || !second_fits) {
        first
    } else if second_fits {
        second
    } else {
        preferred.clamp(min_interval, max_interval)
    }
}

fn quantize_variable_source_interval(source: Duration, display: DisplayTiming) -> (r: Duration)
    ensures
        r.0 == display@.source_near(source.0 as int),
{
    let (min_interval, max_interval) = (display.min_interval, display.max_interval);
    let wanted = source.clamp(min_interval, max_interval);
    match display.effective_step() {
        Some(step) => choose_nearest_stepped_interval(wanted, min_interval, max_interval, step),
        None => if display.granularity.is_some() {
            wanted
        } else {
            min_interval
        },
    }
}

fn divide_interval(interval: Duration, divisor: u64) -> (r: Duration)
    ensures
        r.0 == divided(interval.0 as int, divisor as int),
{
    if divisor <= 1 {
        interval
    } else {
        Duration(interval.0.saturating_add(divisor / 2) / divisor)
    }
}

fn interval_error(candidate: Duration, preferred: Duration) -> (r: u64)
    ensures
        r == gap(candidate.0 as int, preferred.0 as int),
{
    if candidate >= preferred {
        candidate.0 - preferred.0
    } else {
        preferred.0 - candidate.0
    }
}

pub(crate) fn tolerant_interval_error(candidate: Duration, preferred: Duration) -> (r: u64)
    ensures
        r == tolerant_gap(candidate.0 as int, preferred.0 as int),
{
    let error: u64 = interval_error(candidate, preferred);
    if error <= TIMING_QUANTIZATION_TOLERANCE_NS {
        0
    } else {
        error
    }
}

pub(crate) fn rounded_up_multiple_count(needed: Duration, interval: Duration) -> (r: u64)
    ensures
        r == covering_multiples(needed.0 as int, interval.0 as int),
{
    if interval.is_zero() {
        return 0;
    }
    let floor: u64 = needed.0 / interval.0;
    if floor > 0 && needed.0 % interval.0 <= TIMING_QUANTIZATION_TOLERANCE_NS {
        proof {
            lemma_quotient_positive(needed.0 as int, interval.0 as int);
        }
        return floor;
    }
    proof {
        lemma_quotient_positive(needed.0 as int, interval.0 as int);
    }
    needed.0.saturating_add(interval.0 - 1) / interval.0
}

proof fn lemma_quotient_positive(a: int, b: int)
    requires
        a >= 0,
        b > 0,
    ensures
        a / b > 0 <==> a >= b,
{
    if a >= b {
        assert(a / b > 0) by (nonlinear_arith)
            requires
                a >= b,
                b > 0,
        ;
    } else {
        vstd::arithmetic::div_mod::lemma_basic_div(a, b);
    }
}

fn choose_variable_multiple_delivery_interval(
    preferred: Duration,
    min_interval: Duration,
    max_interval: Duration,
    display: DisplayTiming,
) -> (r: Duration)
    ensures
        r.0 == display@.slow_delivery(
            preferred.0 as int,
            min_interval.0 as int,
            max_interval.0 as int,
        ),
{
    let ghost model = display@;
    let ghost wanted = preferred.0 as int;
    let ghost (lo, hi) = (min_interval.0 as int, max_interval.0 as int);
    let mut best: Option<(Duration, u64)> = None;
    let ghost mut best_divisor: int = 0;
    let mut divisor: u64 = 1;
    while divisor <= MAX_FRAME_RATE_DIVISOR
        invariant
            model == display@,
            wanted == preferred.0,
            lo == min_interval.0,
            hi == max_interval.0,
            1 <= divisor <= MAX_FRAME_RATE_DIVISOR + 1,
            best is None ==> forall|other: int|
                #![trigger model.delivers_within(wanted, lo, hi, other)]
                other < divisor ==> !model.delivers_within(wanted, lo, hi, other),
            best matches Some((delivery, error)) ==> {
                &&& best_divisor < divisor
                &&& model.delivers_within(wanted, lo, hi, best_divisor)
                &&& delivery.0 == model.divided_delivery(wanted, best_divisor)
                &&& error == tolerant_gap(delivery.0 as int, wanted)
                &&& forall|other: int|
                    #![trigger model.delivers_within(wanted, lo, hi, other)]
                    other < divisor && model.delivers_within(wanted, lo, hi, other) ==> {
                        let f = tolerant_gap(model.divided_delivery(wanted, other), wanted);
                        error < f || error == f && best_divisor <= other
                    }
            },
        decreases MAX_FRAME_RATE_DIVISOR + 1 - divisor,
    {
        let source = quantize_variable_source_interval(
            divide_interval(preferred, divisor),
            display,
        );
        let delivery = source.saturating_mul(divisor);
        if delivery >= min_interval && delivery <= max_interval {
            let error: u64 = tolerant_interval_error(delivery, preferred);
            let improves = match best {
                Some((_, best_error)) => error < best_error,
                None => true,
            };
            if improves {
                best = Some((delivery, error));
                proof {
                    best_divisor = divisor as int;
                }
            }
        }
        divisor = divisor + 1;
    }
    match best {
        Some((delivery, _)) => {
            proof {
                assert(model.best_delivery_divisor(wanted, lo, hi, best_divisor));
                lemma_best_delivery_divisor_unique(model, wanted, lo, hi, best_divisor);
            }
            delivery
        },
        None => choose_fixed_multiple_interval(
            preferred,
            min_interval,
            max_interval,
            display.max_interval,
        ),
    }
}

/// There is one best divisor, so `choose` finds it.
proof fn lemma_best_delivery_divisor_unique(
    model: DisplayModel,
    wanted: int,
    lo: int,
    hi: int,
    divisor: int,
)
    requires
        model.best_delivery_divisor(wanted, lo, hi, divisor),
    ensures
        divisor == (choose|d: int| model.best_delivery_divisor(wanted, lo, hi, d)),
{
    let d = choose|d: int| model.best_delivery_divisor(wanted, lo, hi, d);
    assert(model.best_delivery_divisor(wanted, lo, hi, d));
    assert(model.delivers_within(wanted, lo, hi, d));
    assert(model.delivers_within(wanted, lo, hi, divisor));
}

fn choose_variable_source_interval_for_delivery(
    delivery_interval: Duration,
    display: DisplayTiming,
) -> (r: Duration)
    ensures
        r.0 == display@.slow_source(delivery_interval.0 as int),
{
    let ghost model = display@;
    let ghost wanted = delivery_interval.0 as int;
    let mut best: Option<(Duration, u64)> = None;
    let ghost mut best_divisor: int = 0;
    let mut divisor: u64 = 1;
    while divisor <= MAX_FRAME_RATE_DIVISOR
        invariant
            model == display@,
            wanted == delivery_interval.0,
            1 <= divisor <= MAX_FRAME_RATE_DIVISOR + 1,
            best is None ==> forall|other: int|
                #![trigger model.sources_by(wanted, other)]
                other < divisor ==> !model.sources_by(wanted, other),
            best matches Some((source, error)) ==> {
                &&& best_divisor < divisor
                &&& model.sources_by(wanted, best_divisor)
                &&& source.0 == model.divided_source(wanted, best_divisor)
                &&& error == tolerant_gap(model.divided_delivery(wanted, best_divisor), wanted)
                &&& forall|other: int|
                    #![trigger model.sources_by(wanted, other)]
                    other < divisor && model.sources_by(wanted, other) ==> {
                        let f = tolerant_gap(model.divided_delivery(wanted, other), wanted);
                        error < f || error == f && best_divisor <= other
                    }
            },
        decreases MAX_FRAME_RATE_DIVISOR + 1 - divisor,
    {
        let source = quantize_variable_source_interval(
            divide_interval(delivery_interval, divisor),
            display,
        );
        if source >= display.min_interval && source <= display.max_interval {
            let reconstructed = source.saturating_mul(divisor);
            let error: u64 = tolerant_interval_error(reconstructed, delivery_interval);
            let improves = match best {
                Some((_, best_error)) => error < best_error,
                None => true,
            };
            if improves {
                best = Some((source, error));
                proof {
                    best_divisor = divisor as int;
                }
            }
        }
        divisor = divisor + 1;
    }
    match best {
        Some((source, _)) => {
            proof {
                assert(model.best_source_divisor(wanted, best_divisor));
                lemma_best_source_divisor_unique(model, wanted, best_divisor);
            }
            source
        },
        None => delivery_interval.clamp(display.min_interval, display.max_interval),
    }
}

/// There is one best divisor, so `choose` finds it.
proof fn lemma_best_source_divisor_unique(model: DisplayModel, delivery: int, divisor: int)
    requires
        model.best_source_divisor(delivery, divisor),
    ensures
        divisor == (choose|d: int| model.best_source_divisor(delivery, d)),
{
    let d = choose|d: int| model.best_source_divisor(delivery, d);
    assert(model.best_source_divisor(delivery, d));
    assert(model.sources_by(delivery, d));
    assert(model.sources_by(delivery, divisor));
}

/// Where a divisor fits, there is a best one.
proof fn lemma_best_delivery_divisor_exists(
    model: DisplayModel,
    wanted: int,
    lo: int,
    hi: int,
    bound: int,
) -> (best: int)
    requires
        exists|d: int| d <= bound && model.delivers_within(wanted, lo, hi, d),
        0 <= bound <= MAX_FRAME_RATE_DIVISOR,
    ensures
        best <= bound,
        model.delivers_within(wanted, lo, hi, best),
        forall|other: int| #[trigger]
            model.delivers_within(wanted, lo, hi, other) && other <= bound ==> {
                let e = tolerant_gap(model.divided_delivery(wanted, best), wanted);
                let f = tolerant_gap(model.divided_delivery(wanted, other), wanted);
                e < f || e == f && best <= other
            },
    decreases bound,
{
    if exists|d: int| d <= bound - 1 && model.delivers_within(wanted, lo, hi, d) {
        let earlier = lemma_best_delivery_divisor_exists(model, wanted, lo, hi, bound - 1);
        if model.delivers_within(wanted, lo, hi, bound) && tolerant_gap(
            model.divided_delivery(wanted, bound),
            wanted,
        ) < tolerant_gap(model.divided_delivery(wanted, earlier), wanted) {
            bound
        } else {
            earlier
        }
    } else {
        bound
    }
}

/// Where a divisor fits, there is a best one.
proof fn lemma_best_source_divisor_exists(model: DisplayModel, delivery: int, bound: int) -> (best:
    int)
    requires
        exists|d: int| d <= bound && model.sources_by(delivery, d),
        0 <= bound <= MAX_FRAME_RATE_DIVISOR,
    ensures
        best <= bound,
        model.sources_by(delivery, best),
        forall|other: int| #[trigger]
            model.sources_by(delivery, other) && other <= bound ==> {
                let e = tolerant_gap(model.divided_delivery(delivery, best), delivery);
                let f = tolerant_gap(model.divided_delivery(delivery, other), delivery);
                e < f || e == f && best <= other
            },
    decreases bound,
{
    if exists|d: int| d <= bound - 1 && model.sources_by(delivery, d) {
        let earlier = lemma_best_source_divisor_exists(model, delivery, bound - 1);
        if model.sources_by(delivery, bound) && tolerant_gap(
            model.divided_delivery(delivery, bound),
            delivery,
        ) < tolerant_gap(model.divided_delivery(delivery, earlier), delivery) {
            bound
        } else {
            earlier
        }
    } else {
        bound
    }
}

/// On a fixed-rate display the chosen interval is the smallest whole number of refreshes that
/// contains the work, up to the timing tolerance. Some number of refreshes must: `multiple` is one
/// of them.
pub proof fn law_fixed_interval_contains_work(interval: Duration, needed: Duration, multiple: nat)
    requires
        interval.0 > 0,
        needed.0 <= multiple * interval.0 + TIMING_QUANTIZATION_TOLERANCE_NS,
        multiple * interval.0 <= u64::MAX,
    ensures
        ({
            let base = interval.0 as int;
            let model = DisplayModel { min: base, max: base, granularity: Some(base) };
            let chosen = model.interval_for(needed.0 as int);
            &&& chosen % base == 0
            &&& chosen >= base
            &&& chosen + TIMING_QUANTIZATION_TOLERANCE_NS >= needed.0
            &&& chosen > base ==> chosen - base < needed.0
        }),
{
    let base = interval.0 as int;
    let n = needed.0 as int;
    let model = DisplayModel { min: base, max: base, granularity: Some(base) };
    let count = covering_multiples(n, base);
    let sum = time::sat_duration(n + base - 1);
    lemma_quotient_positive(n, base);
    vstd::arithmetic::div_mod::lemma_fundamental_div_mod(n, base);
    vstd::arithmetic::div_mod::lemma_fundamental_div_mod(sum, base);
    let floor = n / base;
    let ceiling = sum / base;
    let times = time::larger(count, 1);
    if n >= base && n % base <= TIMING_QUANTIZATION_TOLERANCE_NS {
        assert(times == floor);
    } else {
        assert(count == ceiling);
        if n == 0 {
            vstd::arithmetic::div_mod::lemma_basic_div(base - 1, base);
            assert(base * times == base) by (nonlinear_arith)
                requires
                    times == 1,
            ;
        } else {
            // One more refresh than fits in the work is enough, and no less.
            assert(base * (floor + 1) == base * floor + base) by (nonlinear_arith);
            assert(base * (floor + 1) <= u64::MAX || n % base == 0) by {
                if n >= base {
                    if multiple <= floor {
                        assert(multiple * base <= floor * base) by (nonlinear_arith)
                            requires
                                multiple <= floor,
                                base > 0,
                        ;
                        assert(floor * base == base * floor) by (nonlinear_arith);
                        assert(false);
                    }
                    assert(multiple * base >= base * (floor + 1)) by (nonlinear_arith)
                        requires
                            multiple >= floor + 1,
                            base > 0,
                    ;
                } else {
                    assert(floor == 0);
                    assert(base * 1 == base);
                }
            }
            let above = if n % base == 0 {
                floor
            } else {
                floor + 1
            };
            assert(base * above >= n);
            assert(base * above <= sum);
            assert(sum - base * above < base);
            assert(above * base == base * above) by (nonlinear_arith);
            vstd::arithmetic::div_mod::lemma_fundamental_div_mod_converse(
                sum,
                base,
                above,
                sum - base * above,
            );
            assert(ceiling == above);
            if above < 1 {
                assert(base * above <= 0) by (nonlinear_arith)
                    requires
                        base > 0,
                        above < 1,
                ;
            }
        }
    }
    assert(times >= 1);
    assert(base * times >= base) by (nonlinear_arith)
        requires
            base > 0,
            times >= 1,
    ;
    vstd::arithmetic::mul::lemma_mul_is_commutative(base, times);
    vstd::arithmetic::div_mod::lemma_mod_multiples_basic(times, base);
    assert(model.effective_step() is None);
    assert(model.interval_for(n) == base * times);
}

/// With `needed` as its own lower bound, the nearest multiple is the smallest that reaches it.
pub(crate) proof fn lemma_nearest_multiple_reaches(needed: int, base: int, multiple: int)
    requires
        0 <= needed,
        0 < base <= u64::MAX,
        needed <= multiple * base <= u64::MAX,
    ensures
        ({
            let chosen = nearest_multiple(needed, needed, u64::MAX as int, base);
            &&& chosen % base == 0
            &&& chosen >= base
            &&& chosen >= needed
            &&& chosen > base ==> chosen - base < needed
        }),
{
    let floor = needed / base;
    let count = time::larger(1, floor);
    lemma_quotient_positive(needed, base);
    vstd::arithmetic::div_mod::lemma_fundamental_div_mod(needed, base);
    assert(base * (count + 1) == base * count + base) by (nonlinear_arith);
    if needed >= base && needed % base != 0 {
        if multiple <= floor {
            assert(multiple * base <= floor * base) by (nonlinear_arith)
                requires
                    multiple <= floor,
                    base > 0,
            ;
            assert(floor * base == base * floor) by (nonlinear_arith);
        }
        assert(multiple * base >= base * (count + 1)) by (nonlinear_arith)
            requires
                multiple >= count + 1,
                base > 0,
        ;
    }
    vstd::arithmetic::mul::lemma_mul_is_commutative(base, count);
    vstd::arithmetic::mul::lemma_mul_is_commutative(base, count + 1);
    vstd::arithmetic::div_mod::lemma_mod_multiples_basic(count, base);
    vstd::arithmetic::div_mod::lemma_mod_multiples_basic(count + 1, base);
    assert(base * 1 == base);
}

/// On a variable-refresh display of unknown granularity the chosen interval is the smallest whole
/// number of the fastest intervals that contains the work. Some number must: `multiple` is one of
/// them.
pub proof fn law_continuous_interval_contains_work(
    model: DisplayModel,
    needed: Duration,
    multiple: nat,
)
    requires
        model.wf(),
        0 < model.min < model.max,
        model.granularity is None,
        needed.0 <= multiple * model.min <= u64::MAX,
    ensures
        ({
            let chosen = model.interval_for(needed.0 as int);
            &&& chosen % model.min == 0
            &&& chosen >= model.min
            &&& chosen >= needed.0
            &&& chosen > model.min ==> chosen - model.min < needed.0
        }),
{
    lemma_nearest_multiple_reaches(needed.0 as int, model.min, multiple as int);
}

/// A variable-refresh display that reports its granularity is never asked to leave its range.
pub proof fn law_reported_range_is_kept(model: DisplayModel, needed: Duration)
    requires
        model.wf(),
        model.min < model.max,
        model.granularity is Some,
    ensures
        model.min <= model.interval_for(needed.0 as int) <= model.max,
{
}

/// Where the acceptable range is not empty, the interval chosen for a preference lies in it. A
/// display without a fastest interval may have none to choose.
pub proof fn law_preferred_interval_is_acceptable(
    model: DisplayModel,
    preferred: Duration,
    min_interval: Option<Duration>,
    max_interval: Option<Duration>,
)
    requires
        model.wf(),
        model.acceptable_min(optional_nanos(min_interval)) <= model.acceptable_max(
            optional_nanos(max_interval),
        ),
    ensures
        ({
            let chosen = model.preferred_interval(
                preferred.0 as int,
                optional_nanos(min_interval),
                optional_nanos(max_interval),
            );
            ||| model.min == 0 && chosen == 0
            ||| model.acceptable_min(optional_nanos(min_interval)) <= chosen
                <= model.acceptable_max(optional_nanos(max_interval))
        }),
{
    let lo = model.acceptable_min(optional_nanos(min_interval));
    let hi = model.acceptable_max(optional_nanos(max_interval));
    let wanted = time::clamped(preferred.0 as int, lo, hi);
    if model.min != model.max && lo > model.max {
        if exists|d: int| model.delivers_within(wanted, lo, hi, d) {
            let d = choose|d: int| model.delivers_within(wanted, lo, hi, d);
            assert(d <= MAX_FRAME_RATE_DIVISOR);
            let best = lemma_best_delivery_divisor_exists(
                model,
                wanted,
                lo,
                hi,
                MAX_FRAME_RATE_DIVISOR as int,
            );
            assert(model.best_delivery_divisor(wanted, lo, hi, best));
        }
    }
}

/// The source interval is always one that the display supports.
pub proof fn law_source_interval_is_supported(model: DisplayModel, delivery: int)
    requires
        model.wf(),
    ensures
        model.min <= model.source_for_delivery(delivery) <= model.max,
{
    let wanted = delivery;
    if exists|d: int| model.sources_by(wanted, d) {
        let d = choose|d: int| model.sources_by(wanted, d);
        assert(d <= MAX_FRAME_RATE_DIVISOR);
        let best = lemma_best_source_divisor_exists(model, wanted, MAX_FRAME_RATE_DIVISOR as int);
        assert(model.best_source_divisor(wanted, best));
    }
}

/// A fixed-rate display, and one that only reports a broad range, is always driven at its fastest
/// interval.
pub proof fn law_source_is_fastest_without_granularity(model: DisplayModel, delivery: int)
    requires
        model.wf(),
        model.min == model.max || model.granularity is None,
    ensures
        model.source_for_delivery(delivery) == model.min,
{
    let wanted = delivery;
    if model.min != model.max {
        assert(model.sources_by(wanted, 1));
        let best = lemma_best_source_divisor_exists(model, wanted, MAX_FRAME_RATE_DIVISOR as int);
        assert(model.best_source_divisor(wanted, best));
    }
}

/// The nearer of the two multiples of `base` around `wanted` is as near as any acceptable multiple.
/// A multiple that does not fit a duration is cut off at the longest one.
proof fn lemma_nearer_multiple(wanted: int, lo: int, hi: int, base: int, multiple: int)
    requires
        base > 0,
        0 <= lo <= wanted <= hi <= u64::MAX,
        lo <= multiple * base <= hi,
    ensures
        ({
            let count = wanted / base;
            let chosen = nearer_within(
                base * count,
                time::sat_duration(base * (count + 1)),
                wanted,
                lo,
                hi,
            );
            &&& chosen % base == 0 || chosen == u64::MAX
            &&& gap(chosen, wanted) <= gap(multiple * base, wanted)
            &&& gap(chosen, wanted) == gap(multiple * base, wanted) ==> chosen <= multiple * base
        }),
{
    let count = wanted / base;
    vstd::arithmetic::div_mod::lemma_fundamental_div_mod(wanted, base);
    vstd::arithmetic::div_mod::lemma_div_pos_is_pos(wanted, base);
    assert(base * (count + 1) == base * count + base) by (nonlinear_arith);
    if multiple <= count {
        assert(multiple * base <= base * count) by (nonlinear_arith)
            requires
                multiple <= count,
                base > 0,
        ;
    } else {
        assert(multiple * base >= base * (count + 1)) by (nonlinear_arith)
            requires
                multiple >= count + 1,
                base > 0,
        ;
    }
    vstd::arithmetic::mul::lemma_mul_is_commutative(base, count);
    vstd::arithmetic::mul::lemma_mul_is_commutative(base, count + 1);
    vstd::arithmetic::div_mod::lemma_mod_multiples_basic(count, base);
    vstd::arithmetic::div_mod::lemma_mod_multiples_basic(count + 1, base);
}

/// On a fixed-rate display, and on one of unknown granularity that is fast enough, the interval
/// chosen for a preference is clean whenever an acceptable one is: a whole number of the fastest
/// intervals, and the one nearest to what is preferred. `multiple` is an acceptable number of
/// them. Only where the next multiple does not fit a duration can the longest duration take its
/// place.
pub proof fn law_preferred_interval_is_clean(
    model: DisplayModel,
    preferred: Duration,
    min_interval: Option<Duration>,
    max_interval: Option<Duration>,
    multiple: nat,
)
    requires
        model.wf(),
        model.min > 0,
        model.min == model.max || model.granularity is None && model.acceptable_min(
            optional_nanos(min_interval),
        ) <= model.max,
        model.acceptable_min(optional_nanos(min_interval)) <= multiple * model.min
            <= model.acceptable_max(optional_nanos(max_interval)),
    ensures
        ({
            let lo = model.acceptable_min(optional_nanos(min_interval));
            let hi = model.acceptable_max(optional_nanos(max_interval));
            let wanted = time::clamped(preferred.0 as int, lo, hi);
            let chosen = model.preferred_interval(
                preferred.0 as int,
                optional_nanos(min_interval),
                optional_nanos(max_interval),
            );
            &&& lo <= chosen <= hi
            &&& chosen % model.min == 0 || chosen == u64::MAX
            &&& gap(chosen, wanted) <= gap(multiple * model.min, wanted)
        }),
{
    let lo = model.acceptable_min(optional_nanos(min_interval));
    let hi = model.acceptable_max(optional_nanos(max_interval));
    let wanted = time::clamped(preferred.0 as int, lo, hi);
    law_preferred_interval_is_acceptable(model, preferred, min_interval, max_interval);
    lemma_nearer_multiple(wanted, lo, hi, model.min, multiple as int);
    lemma_quotient_positive(wanted, model.min);
    vstd::arithmetic::div_mod::lemma_fundamental_div_mod(wanted, model.min);
}

/// A display of unknown granularity whose slowest interval is still too fast for a consumer serves
/// it by a division of its fastest interval, whenever an acceptable division is allowed: a whole
/// number of the fastest intervals, and one that misses what is preferred by no more than any other
/// allowed number, up to the timing tolerance. `multiple` is such a number.
pub proof fn law_slow_preferred_interval_is_clean(
    model: DisplayModel,
    preferred: Duration,
    min_interval: Option<Duration>,
    max_interval: Option<Duration>,
    multiple: nat,
)
    requires
        model.wf(),
        0 < model.min < model.max,
        model.granularity is None,
        model.acceptable_min(optional_nanos(min_interval)) > model.max,
        model.acceptable_min(optional_nanos(min_interval)) <= multiple * model.min
            <= model.acceptable_max(optional_nanos(max_interval)),
        multiple <= MAX_FRAME_RATE_DIVISOR,
    ensures
        ({
            let lo = model.acceptable_min(optional_nanos(min_interval));
            let hi = model.acceptable_max(optional_nanos(max_interval));
            let wanted = time::clamped(preferred.0 as int, lo, hi);
            let chosen = model.preferred_interval(
                preferred.0 as int,
                optional_nanos(min_interval),
                optional_nanos(max_interval),
            );
            &&& lo <= chosen <= hi
            &&& chosen % model.min == 0 || chosen == u64::MAX
            &&& tolerant_gap(chosen, wanted) <= tolerant_gap(multiple * model.min, wanted)
        }),
{
    let lo = model.acceptable_min(optional_nanos(min_interval));
    let hi = model.acceptable_max(optional_nanos(max_interval));
    let wanted = time::clamped(preferred.0 as int, lo, hi);
    let best = lemma_slow_division(model, wanted, lo, hi, multiple as int);
    vstd::arithmetic::div_mod::lemma_mod_multiples_basic(best, model.min);
    vstd::arithmetic::mul::lemma_mul_is_commutative(model.min, best);
}

/// How a display of unknown granularity divides its fastest interval for a slow consumer.
proof fn lemma_slow_division(model: DisplayModel, wanted: int, lo: int, hi: int, multiple: int) -> (
    best: int)
    requires
        model.wf(),
        0 < model.min,
        model.granularity is None,
        0 < lo <= multiple * model.min <= hi <= u64::MAX,
        multiple <= MAX_FRAME_RATE_DIVISOR,
    ensures
        1 <= best <= MAX_FRAME_RATE_DIVISOR,
        model.slow_delivery(wanted, lo, hi) == time::sat_duration(model.min * best),
        lo <= model.slow_delivery(wanted, lo, hi) <= hi,
        forall|other: int|
            1 <= other <= MAX_FRAME_RATE_DIVISOR && lo <= #[trigger] time::sat_duration(
                model.min * other,
            ) <= hi ==> {
                let e = tolerant_gap(time::sat_duration(model.min * best), wanted);
                let f = tolerant_gap(time::sat_duration(model.min * other), wanted);
                e < f || e == f && best <= other
            },
        tolerant_gap(model.slow_delivery(wanted, lo, hi), wanted) <= tolerant_gap(
            multiple * model.min,
            wanted,
        ),
{
    assert(multiple >= 1) by (nonlinear_arith)
        requires
            0 < multiple * model.min,
            0 < model.min,
    ;
    assert(model.min * multiple == multiple * model.min) by (nonlinear_arith);
    assert(model.divided_delivery(wanted, multiple) == multiple * model.min);
    assert(model.delivers_within(wanted, lo, hi, multiple));
    let best = lemma_best_delivery_divisor_exists(
        model,
        wanted,
        lo,
        hi,
        MAX_FRAME_RATE_DIVISOR as int,
    );
    assert(model.best_delivery_divisor(wanted, lo, hi, best));
    lemma_best_delivery_divisor_unique(model, wanted, lo, hi, best);
    assert forall|other: int|
        1 <= other <= MAX_FRAME_RATE_DIVISOR && lo <= #[trigger] time::sat_duration(
            model.min * other,
        ) <= hi implies ({
        let e = tolerant_gap(time::sat_duration(model.min * best), wanted);
        let f = tolerant_gap(time::sat_duration(model.min * other), wanted);
        e < f || e == f && best <= other
    }) by {
        assert(model.divided_delivery(wanted, other) == time::sat_duration(model.min * other));
        assert(model.delivers_within(wanted, lo, hi, other));
    }
    best
}

/// On a display of unknown granularity the interval chosen for a cap is clean: the smallest whole
/// number of the fastest intervals that is at least as long. Some number must be: `multiple` is one
/// of them, and where the display's slowest interval is faster than the cap, no more than the
/// allowed divisor.
pub proof fn law_capped_interval_is_clean(model: DisplayModel, cap: Duration, multiple: nat)
    requires
        model.wf(),
        0 < model.min,
        model.granularity is None,
        cap.0 <= multiple * model.min <= u64::MAX,
        cap.0 <= model.max || multiple <= MAX_FRAME_RATE_DIVISOR,
    ensures
        ({
            let chosen = model.preferred_interval(
                cap.0 as int,
                optional_nanos(Some(cap)),
                optional_nanos(None),
            );
            &&& chosen % model.min == 0
            &&& chosen >= model.min
            &&& chosen >= cap.0
            &&& chosen > model.min ==> chosen - model.min < cap.0
        }),
{
    let base = model.min;
    let lo = model.acceptable_min(optional_nanos(Some(cap)));
    let hi = u64::MAX as int;
    if cap.0 <= base {
        vstd::arithmetic::div_mod::lemma_div_by_self(base);
        assert(base * 1 == base);
        vstd::arithmetic::div_mod::lemma_mod_self_0(base);
    } else if lo <= model.max || model.min == model.max {
        lemma_nearest_multiple_reaches(lo, base, multiple as int);
    } else {
        let best = lemma_slow_division(model, lo, lo, hi, multiple as int);
        vstd::arithmetic::div_mod::lemma_mod_multiples_basic(best, base);
        vstd::arithmetic::mul::lemma_mul_is_commutative(base, best);
        // A longer multiple than the given one is no better, and a shorter one would do.
        assert(base * best <= multiple * base) by {
            assert(base * multiple == multiple * base) by (nonlinear_arith);
            if best > multiple {
                assert(base * best >= base * multiple) by (nonlinear_arith)
                    requires
                        best > multiple,
                        base > 0,
                ;
                assert(multiple >= 1) by (nonlinear_arith)
                    requires
                        0 < multiple * base,
                        base > 0,
                ;
                assert(time::sat_duration(base * multiple) == multiple * base);
            } else {
                assert(base * best <= base * multiple) by (nonlinear_arith)
                    requires
                        best <= multiple,
                        base > 0,
                ;
            }
        }
        if base * best - base >= lo {
            let fewer = best - 1;
            assert(base * fewer == base * best - base) by (nonlinear_arith)
                requires
                    fewer == best - 1,
            ;
            assert(fewer >= 1) by (nonlinear_arith)
                requires
                    base * fewer > 0,
                    base > 0,
            ;
            assert(lo <= time::sat_duration(base * fewer) <= hi);
        }
        assert(base * best >= base) by (nonlinear_arith)
            requires
                best >= 1,
                base > 0,
        ;
    }
}

/// On a display with steps, the interval chosen for a preference that it can serve directly is a
/// whole number of steps whenever an acceptable one is, and the one nearest to what is preferred.
/// `multiple` is an acceptable number of steps. A preference beyond the display's slowest interval
/// gets that interval, which has to be a whole number of steps itself.
pub proof fn law_preferred_interval_is_a_step(
    model: DisplayModel,
    preferred: Duration,
    min_interval: Option<Duration>,
    max_interval: Option<Duration>,
    multiple: nat,
)
    requires
        model.wf(),
        model.min < model.max,
        model.effective_step() is Some,
        model.acceptable_min(optional_nanos(min_interval)) <= multiple * model.effective_step()->0
            <= time::smaller(model.acceptable_max(optional_nanos(max_interval)), model.max),
        preferred.0 <= model.max || model.max % model.effective_step()->0 == 0,
    ensures
        ({
            let step = model.effective_step()->0;
            let lo = model.acceptable_min(optional_nanos(min_interval));
            let hi = model.acceptable_max(optional_nanos(max_interval));
            let wanted = time::clamped(preferred.0 as int, lo, hi);
            let chosen = model.preferred_interval(
                preferred.0 as int,
                optional_nanos(min_interval),
                optional_nanos(max_interval),
            );
            &&& lo <= chosen <= time::smaller(hi, model.max)
            &&& chosen % step == 0 || chosen == u64::MAX
            &&& gap(chosen, wanted) <= gap(multiple * step, wanted)
        }),
{
    let step = model.effective_step()->0;
    let lo = model.acceptable_min(optional_nanos(min_interval));
    let hi = model.acceptable_max(optional_nanos(max_interval));
    let direct_max = time::smaller(hi, model.max);
    let wanted = time::clamped(preferred.0 as int, lo, hi);
    let count = wanted / step;
    if wanted <= direct_max {
        lemma_nearer_multiple(wanted, lo, direct_max, step, multiple as int);
    } else {
        // The slowest interval is a number of steps, and so is the last one up to what is wanted.
        assert(direct_max == model.max);
        let steps = model.max / step;
        vstd::arithmetic::div_mod::lemma_fundamental_div_mod(wanted, step);
        vstd::arithmetic::div_mod::lemma_fundamental_div_mod(model.max, step);
        assert(count >= steps) by (nonlinear_arith)
            requires
                step * steps == model.max,
                step * count + wanted % step == wanted,
                wanted % step < step,
                wanted > model.max,
                step > 0,
        ;
        assert(step * count >= step * steps) by (nonlinear_arith)
            requires
                count >= steps,
                step > 0,
        ;
        assert(step * (count + 1) == step * count + step) by (nonlinear_arith);
    }
}

/// On a display with steps, the chosen interval contains the work up to the timing tolerance, as
/// far as the display's slowest interval allows, and one step less would not contain it or would
/// be too fast for the display. The first part leaves out work beyond the last whole number of
/// steps that fits a duration.
pub proof fn law_stepped_interval_contains_work(model: DisplayModel, needed: Duration)
    requires
        model.wf(),
        model.effective_step() is Some,
    ensures
        ({
            let step = model.effective_step()->0;
            let chosen = model.interval_for(needed.0 as int);
            let reachable = time::smaller(needed.0 as int, model.max);
            &&& model.min <= chosen <= model.max
            &&& (reachable <= model.min || reachable <= step * (u64::MAX as int / step)
                + TIMING_QUANTIZATION_TOLERANCE_NS) ==> chosen + TIMING_QUANTIZATION_TOLERANCE_NS
                >= reachable
            &&& chosen > model.min ==> chosen - step < time::larger(needed.0 as int, model.min)
        }),
{
    let step = model.effective_step()->0;
    let need = time::clamped(needed.0 as int, model.min, model.max);
    let count = covering_multiples(need, step);
    let sum = time::sat_duration(need + step - 1);
    let most = u64::MAX as int / step;
    lemma_quotient_positive(need, step);
    vstd::arithmetic::div_mod::lemma_fundamental_div_mod(need, step);
    vstd::arithmetic::div_mod::lemma_fundamental_div_mod(sum, step);
    vstd::arithmetic::div_mod::lemma_fundamental_div_mod(u64::MAX as int, step);
    assert(count * step == step * count) by (nonlinear_arith);
    if !(need >= step && need % step <= TIMING_QUANTIZATION_TOLERANCE_NS) {
        assert(count == sum / step);
        if need + step - 1 > u64::MAX {
            assert(sum == u64::MAX);
            assert(count == most);
        }
    }
}

/// On a display with one interval, the interval chosen for some work is the smallest whole number
/// of refreshes that contains it, an overrun of a microsecond forgiven, and at least one;
/// `multiple` is a number of refreshes that contains it. A display without an interval gives none.
pub proof fn law_fixed_displays_choose_whole_refreshes(
    model: DisplayModel,
    needed: Duration,
    multiple: nat,
)
    requires
        model.wf(),
        model.min == model.max,
        model.granularity is None || model.granularity == Some(0int) || model.granularity == Some(
            model.min,
        ),
        needed.0 <= multiple * model.min <= u64::MAX,
    ensures
        ({
            let chosen = model.interval_for(needed.0 as int);
            &&& model.min == 0 ==> chosen == 0
            &&& model.min > 0 ==> {
                &&& chosen % model.min == 0
                &&& chosen >= model.min
                &&& chosen + 1_000 >= needed.0
                &&& chosen > model.min ==> chosen - model.min < needed.0
                &&& needed.0 > model.min && needed.0 % (model.min as u64) > 1_000 ==> chosen
                    >= needed.0
                &&& needed.0 >= model.min && needed.0 % (model.min as u64) <= 1_000 ==> chosen
                    <= needed.0
            }
        }),
{
    let base = model.min;
    let n = needed.0 as int;
    if base > 0 {
        let same = DisplayModel { min: base, max: base, granularity: Some(base) };
        assert(model.interval_for(n) == same.interval_for(n));
        law_fixed_interval_contains_work(Duration(base as u64), needed, multiple);
        vstd::arithmetic::div_mod::lemma_fundamental_div_mod(n, base);
        lemma_quotient_positive(n, base);
        let chosen = model.interval_for(n);
        let floor = n / base;
        if n >= base && n % base <= 1_000 {
            assert(chosen == base * floor);
        } else if n > base {
            // The last multiple up to the work falls short of it by more than is forgiven.
            vstd::arithmetic::div_mod::lemma_fundamental_div_mod(chosen, base);
            let count = chosen / base;
            if chosen < n {
                assert(count <= floor) by (nonlinear_arith)
                    requires
                        base * count < base * floor + base,
                        base > 0,
                ;
                assert(base * count <= base * floor) by (nonlinear_arith)
                    requires
                        count <= floor,
                        base > 0,
                ;
            }
        }
    } else {
        assert(model.min * time::larger(covering_multiples(n, 0), 1) == 0) by (nonlinear_arith)
            requires
                model.min == 0,
        ;
    }
}

/// On a variable-refresh display that reports steps, the interval chosen for some work is within
/// the display's range; it is a whole number of steps unless an end of the range takes its place;
/// it contains the work, an overrun of a microsecond forgiven, as far as the slowest interval
/// allows; and one step less would not contain it or would be too fast. With continuous control,
/// reported as a step of zero or of one fastest interval, it is the work itself moved into the
/// range.
pub proof fn law_variable_displays_choose_what_they_support(
    model: DisplayModel,
    needed: Duration,
    step: int,
)
    requires
        model.wf(),
        model.min < model.max,
        model.granularity == Some(step),
    ensures
        ({
            let chosen = model.interval_for(needed.0 as int);
            &&& model.min <= chosen <= model.max
            &&& step == 0 || step == model.min ==> {
                &&& needed.0 <= model.min ==> chosen == model.min
                &&& needed.0 >= model.max ==> chosen == model.max
                &&& model.min <= needed.0 <= model.max ==> chosen == needed.0
            }
            &&& step != 0 && step != model.min ==> {
                &&& chosen % step == 0 || chosen == model.min || chosen == model.max
                &&& needed.0 <= step * (u64::MAX as int / step) ==> chosen + 1_000 >= needed.0
                    || chosen + 1_000 >= model.max
                &&& chosen > model.min ==> chosen - step < needed.0 || chosen - step < model.min
            }
        }),
{
    if step != 0 && step != model.min {
        assert(model.effective_step() == Some(step));
        law_stepped_interval_contains_work(model, needed);
        let need = time::clamped(needed.0 as int, model.min, model.max);
        let count = covering_multiples(need, step);
        vstd::arithmetic::div_mod::lemma_mod_multiples_basic(count, step);
    }
}

/// The interval chosen for a preference. What is acceptable reaches from the slower of the
/// consumer's fastest interval and the display's to the consumer's slowest. Where that is empty,
/// the preferred interval has to be contained like work. Otherwise the choice is acceptable. On a
/// display with one interval, and on one of unknown granularity that is slow enough, it is the
/// acceptable whole number of fastest intervals nearest to what is preferred, and the faster of two
/// equally near ones; on a display with steps the same goes for whole numbers of steps up to the
/// slowest interval; and with continuous control it is what is preferred, moved into what is both
/// acceptable and supported. `multiple` is an acceptable number of intervals or steps; numbers
/// whose successor does not fit a duration are left out.
pub proof fn law_preferences_get_the_nearest_acceptable_interval(
    model: DisplayModel,
    preferred: Duration,
    min_interval: Option<Duration>,
    max_interval: Option<Duration>,
    multiple: nat,
)
    requires
        model.wf(),
        model.min > 0,
    ensures
        ({
            let fastest = match min_interval {
                Some(interval) => interval.0 as int,
                None => 0,
            };
            let lo = if fastest >= model.min {
                fastest
            } else {
                model.min
            };
            let hi = match max_interval {
                Some(interval) => interval.0 as int,
                None => u64::MAX as int,
            };
            let wanted = if preferred.0 < lo {
                lo
            } else if preferred.0 > hi {
                hi
            } else {
                preferred.0 as int
            };
            let chosen = model.preferred_interval(
                preferred.0 as int,
                optional_nanos(min_interval),
                optional_nanos(max_interval),
            );
            let clean = model.min == model.max || model.granularity is None && lo <= model.max;
            &&& lo > hi ==> chosen == model.interval_for(preferred.0 as int)
            &&& lo <= hi && model.min < model.max && lo > model.max ==> chosen
                == model.slow_delivery(wanted, lo, hi)
            &&& lo <= hi ==> lo <= chosen <= hi
            &&& lo <= hi && clean && lo <= multiple * model.min <= hi ==> {
                let (miss, other) = (
                    if chosen >= wanted { chosen - wanted } else { wanted - chosen },
                    if multiple * model.min >= wanted {
                        multiple * model.min - wanted
                    } else {
                        wanted - multiple * model.min
                    },
                );
                &&& chosen % model.min == 0 || chosen == u64::MAX
                &&& miss < other || miss == other && chosen <= multiple * model.min
            }
            &&& lo <= hi && model.min < model.max && lo <= model.max ==> match model.granularity {
                None => true,
                Some(step) => if step == 0 || step == model.min {
                    &&& chosen <= model.max
                    &&& wanted <= model.max ==> chosen == wanted
                    &&& wanted > model.max ==> chosen == model.max
                } else {
                    &&& chosen <= model.max
                    &&& lo <= multiple * step <= model.max && multiple * step <= hi && wanted
                        <= model.max ==> {
                        let (miss, other) = (
                            if chosen >= wanted { chosen - wanted } else { wanted - chosen },
                            if multiple * step >= wanted {
                                multiple * step - wanted
                            } else {
                                wanted - multiple * step
                            },
                        );
                        &&& chosen % step == 0 || chosen == u64::MAX
                        &&& miss < other || miss == other && chosen <= multiple * step
                    }
                },
            }
        }),
{
    let lo = model.acceptable_min(optional_nanos(min_interval));
    let hi = model.acceptable_max(optional_nanos(max_interval));
    let wanted = time::clamped(preferred.0 as int, lo, hi);
    if lo <= hi {
        law_preferred_interval_is_acceptable(model, preferred, min_interval, max_interval);
        if lo <= multiple * model.min <= hi {
            lemma_nearer_multiple(wanted, lo, hi, model.min, multiple as int);
            lemma_quotient_positive(wanted, model.min);
            vstd::arithmetic::div_mod::lemma_fundamental_div_mod(wanted, model.min);
        }
        if model.effective_step() is Some {
            let step = model.effective_step()->0;
            let direct_max = time::smaller(hi, model.max);
            if lo <= multiple * step <= direct_max && wanted <= direct_max {
                lemma_nearer_multiple(wanted, lo, direct_max, step, multiple as int);
            }
        }
    }
}

/// Dividing an interval rounds to the nearest count of nanoseconds: the parts together miss the
/// interval by no more than half a part each.
pub proof fn law_division_rounds_to_nearest(interval: Duration, divisor: u64)
    requires
        1 <= divisor <= 16,
        interval.0 + 8 <= u64::MAX,
    ensures
        ({
            let part = divided(interval.0 as int, divisor as int);
            &&& -(divisor as int) <= 2 * (part * divisor - interval.0) <= divisor
            &&& divisor == 1 ==> part == interval.0
        }),
{
    let (n, d) = (interval.0 as int, divisor as int);
    if d > 1 {
        vstd::arithmetic::div_mod::lemma_fundamental_div_mod(n + d / 2, d);
        let part = (n + d / 2) / d;
        assert(part * d == d * part) by (nonlinear_arith);
    }
}

/// What a variable-refresh display runs at when a source interval is asked for: its fastest
/// interval if its granularity is unknown; with continuous control what is asked for, moved into
/// its range; and with steps the whole number of steps in its range nearest to that, the faster of
/// two equally near ones. `multiple` is a number of steps in the range.
pub proof fn law_sources_are_the_nearest_supported(
    model: DisplayModel,
    asked: Duration,
    multiple: nat,
)
    requires
        model.wf(),
        model.min < model.max,
    ensures
        ({
            let near = model.source_near(asked.0 as int);
            let wanted = if asked.0 < model.min {
                model.min
            } else if asked.0 > model.max {
                model.max
            } else {
                asked.0 as int
            };
            &&& model.min <= near <= model.max
            &&& match model.granularity {
                None => near == model.min,
                Some(step) => if step == 0 || step == model.min {
                    near == wanted
                } else {
                    model.min <= multiple * step <= model.max ==> {
                        let (miss, other) = (
                            if near >= wanted { near - wanted } else { wanted - near },
                            if multiple * step >= wanted {
                                multiple * step - wanted
                            } else {
                                wanted - multiple * step
                            },
                        );
                        &&& near % step == 0 || near == u64::MAX
                        &&& miss < other || miss == other && near <= multiple * step
                    }
                },
            }
        }),
{
    let wanted = time::clamped(asked.0 as int, model.min, model.max);
    if model.effective_step() is Some {
        let step = model.effective_step()->0;
        if model.min <= multiple * step <= model.max {
            lemma_nearer_multiple(wanted, model.min, model.max, step, multiple as int);
        }
    }
}

/// The source interval for a delivery interval. A display with one interval gives that. A variable
/// one that can run at the delivery interval runs as near to it as it can. Otherwise it runs so
/// that every so many ticks, up to 16, make up the delivery interval: no other number of ticks from
/// the source nearest to that part comes closer, differences of a microsecond taken as none, and of
/// equally good numbers the smallest is used.
pub proof fn law_sources_make_up_the_delivery(model: DisplayModel, delivery: Duration, other: u64)
    requires
        model.wf(),
        1 <= other <= 16,
    ensures
        ({
            let source = model.source_for_delivery(delivery.0 as int);
            let direct = model.min <= delivery.0 <= model.max;
            &&& model.min == model.max ==> source == model.min
            &&& model.min < model.max && direct ==> source == model.source_near(delivery.0 as int)
            &&& model.min < model.max && !direct ==> exists|ticks: int|
                {
                    let part = model.source_near(divided(delivery.0 as int, other as int));
                    let error = miss_of(source, ticks, delivery.0 as int);
                    let other_error = miss_of(part, other as int, delivery.0 as int);
                    &&& 1 <= ticks <= 16
                    &&& #[trigger] model.divided_source(delivery.0 as int, ticks) == source
                    &&& error < other_error || error == other_error && ticks <= other
                }
        }),
{
    let wanted = delivery.0 as int;
    if model.min < model.max && !(model.min <= wanted <= model.max) {
        let part = divided(wanted, other as int);
        assert(model.sources_by(wanted, 1)) by {
            lemma_source_near_in_range(model, wanted);
        }
        assert(model.sources_by(wanted, other as int)) by {
            lemma_source_near_in_range(model, part);
        }
        let best = lemma_best_source_divisor_exists(model, wanted, MAX_FRAME_RATE_DIVISOR as int);
        assert(model.best_source_divisor(wanted, best));
        lemma_best_source_divisor_unique(model, wanted, best);
        assert(model.divided_source(wanted, best) == model.source_for_delivery(wanted));
    }
}

/// By how much `ticks` ticks of `source` miss `wanted`; a microsecond is taken as nothing.
pub open spec fn miss_of(source: int, ticks: int, wanted: int) -> int {
    let made = if source * ticks <= u64::MAX {
        source * ticks
    } else {
        u64::MAX as int
    };
    let miss = if made >= wanted {
        made - wanted
    } else {
        wanted - made
    };
    if miss <= 1_000 {
        0
    } else {
        miss
    }
}

/// A display runs within its range.
proof fn lemma_source_near_in_range(model: DisplayModel, source: int)
    requires
        model.wf(),
    ensures
        model.min <= model.source_near(source) <= model.max,
{
}

/// The delivery interval for a consumer slower than the display's slowest interval. It is
/// acceptable and made up of a number of ticks, up to 16, of the source nearest to that part of
/// what is wanted; no other acceptable number comes closer, differences of a microsecond taken as
/// none, and of equally good numbers the smallest is used. `other` is an acceptable number of
/// ticks.
pub proof fn law_slow_consumers_get_the_best_division(
    model: DisplayModel,
    wanted: Duration,
    lo: Duration,
    hi: Duration,
    other: u64,
)
    requires
        model.wf(),
        model.min < model.max,
        1 <= other <= 16,
        ({
            let part = model.source_near(divided(wanted.0 as int, other as int));
            lo.0 <= part * other <= hi.0
        }),
    ensures
        exists|ticks: int|
            {
                let part = model.source_near(divided(wanted.0 as int, other as int));
                let source = #[trigger] model.divided_source(wanted.0 as int, ticks);
                let chosen = model.slow_delivery(wanted.0 as int, lo.0 as int, hi.0 as int);
                let error = miss_of(source, ticks, wanted.0 as int);
                let other_error = miss_of(part, other as int, wanted.0 as int);
                &&& 1 <= ticks <= 16
                &&& lo.0 <= chosen <= hi.0
                &&& source * ticks <= u64::MAX ==> chosen == source * ticks
                &&& source * ticks > u64::MAX ==> chosen == u64::MAX
                &&& source == model.source_near(divided(wanted.0 as int, ticks))
                &&& error < other_error || error == other_error && ticks <= other
            },
{
    let (w, l, h) = (wanted.0 as int, lo.0 as int, hi.0 as int);
    assert(model.delivers_within(w, l, h, other as int));
    let best = lemma_best_delivery_divisor_exists(model, w, l, h, MAX_FRAME_RATE_DIVISOR as int);
    assert(model.best_delivery_divisor(w, l, h, best));
    lemma_best_delivery_divisor_unique(model, w, l, h, best);
    assert(model.divided_delivery(w, best) == model.slow_delivery(w, l, h));
    assert(model.divided_source(w, best) == model.source_near(divided(w, best)));
}

/// Where no division is acceptable, a slow consumer gets the acceptable whole number of slowest
/// intervals nearest to what is wanted, and the faster of two equally near ones. `multiple` is an
/// acceptable number of them.
pub proof fn law_slow_consumers_fall_back_to_the_slowest_interval(
    model: DisplayModel,
    wanted: Duration,
    lo: Duration,
    hi: Duration,
    multiple: nat,
)
    requires
        model.wf(),
        0 <= model.min < model.max,
        model.max <= lo.0 <= wanted.0 <= hi.0,
        lo.0 <= multiple * model.max <= hi.0,
        forall|ticks: int|
            #![trigger model.divided_source(wanted.0 as int, ticks)]
            1 <= ticks <= 16 ==> {
                let made = model.divided_source(wanted.0 as int, ticks) * ticks;
                made < lo.0 || made > hi.0 && hi.0 < u64::MAX
            },
    ensures
        ({
            let chosen = model.slow_delivery(wanted.0 as int, lo.0 as int, hi.0 as int);
            let (miss, other) = (
                if chosen >= wanted.0 { chosen - wanted.0 } else { wanted.0 - chosen },
                if multiple * model.max >= wanted.0 {
                    multiple * model.max - wanted.0
                } else {
                    wanted.0 - multiple * model.max
                },
            );
            &&& lo.0 <= chosen <= hi.0
            &&& chosen % model.max == 0 || chosen == u64::MAX
            &&& miss < other || miss == other && chosen <= multiple * model.max
        }),
{
    let (w, l, h) = (wanted.0 as int, lo.0 as int, hi.0 as int);
    assert forall|ticks: int| !model.delivers_within(w, l, h, ticks) by {
        if 1 <= ticks <= MAX_FRAME_RATE_DIVISOR {
            let made = model.divided_source(w, ticks) * ticks;
            assert(made < l || made > h && h < u64::MAX);
        }
    }
    lemma_nearer_multiple(w, l, h, model.max, multiple as int);
    lemma_quotient_positive(w, model.max);
    vstd::arithmetic::div_mod::lemma_fundamental_div_mod(w, model.max);
}

} // verus!
