//! The stateless pacing decision for one frame.

use crate::cadence;
use crate::demand::{DemandPolicy, FrameDemand};
use crate::display::{self, DisplayModel, DisplayTiming};
use crate::time::{self, longer, Duration, Time};
use vstd::prelude::*;

verus! {

/// Estimated work durations used to schedule a frame.
///
/// The app should wake at `FramePlan::pre_surface_work_start` to begin
/// `Action::StartPreSurfaceWork`. When that work is reported complete, the scheduler may ask the
/// app to sleep again until `FramePlan::acquire_surface_at` and then return
/// `Action::AcquireSurface`. After the app reports [`Self::surface_work`] complete, it should ask
/// the scheduler again immediately and handle `Action::Present`. [`Self::gpu_work`] is not a wake
/// point; it is the expected/observed GPU execution time after submission.
///
/// ```text
/// pre_surface_work        surface_work             gpu_work
/// scene/layout/rendergraph acquire+encode/finalize  GPU executes
/// |----------------------|------------------------|------------|
/// wake                   wake/acquire             submit       ready/present
/// ```
#[derive(Clone, Copy, Debug, PartialEq, Eq, Structural)]
pub struct FrameTimingEstimate {
    /// CPU work that can happen before the surface is acquired.
    ///
    /// Examples are animation sampling, layout, scene preparation, culling, render graph
    /// building, and offscreen command preparation that does not reference the final drawable.
    pub pre_surface_work: Duration,
    /// CPU work that needs an acquired drawable/swapchain image.
    ///
    /// Examples are acquiring the surface, encoding passes that target the drawable, final blits
    /// into the drawable, and finalizing command buffers for submission. This is separate from
    /// [`Self::gpu_work`] because it affects how long the app holds a scarce presentation
    /// surface.
    pub surface_work: Duration,
    /// GPU execution time for submitted work before the frame is ready.
    ///
    /// Examples are vertex, fragment, compute, resolve, store, and blit execution. This is
    /// separate from [`Self::surface_work`] because the CPU may be free while the GPU is still
    /// determining whether the frame can meet its presentation target.
    pub gpu_work: Duration,
    /// Extra time reserved for timer, IPC, and scheduler variance.
    pub safety_margin: Duration,
}

impl FrameTimingEstimate {
    /// The nanoseconds from wake-up to GPU completion.
    pub open spec fn total_nanos(self) -> int {
        time::sat_duration(
            self.pre_surface_work.0 + self.surface_work.0 + self.gpu_work.0 + self.safety_margin.0,
        )
    }

    /// The nanoseconds from surface acquisition to GPU completion.
    pub open spec fn ready_nanos(self) -> int {
        time::sat_duration(self.surface_work.0 + self.gpu_work.0 + self.safety_margin.0)
    }

    /// Returns the estimated duration from wake-up to GPU completion.
    #[must_use]
    pub fn total_work(self) -> (r: Duration)
        ensures
            r.0 == self.total_nanos(),
    {
        self.pre_surface_work + self.surface_work + self.gpu_work + self.safety_margin
    }

    /// Returns the estimated duration from surface acquisition to GPU completion.
    #[must_use]
    pub fn surface_to_ready(self) -> (r: Duration)
        ensures
            r.0 == self.ready_nanos(),
    {
        self.surface_work + self.gpu_work + self.safety_margin
    }
}

impl Default for FrameTimingEstimate {
    fn default() -> (r: Self)
        ensures
            r.pre_surface_work.0 == 2_000_000,
            r.surface_work.0 == 2_000_000,
            r.gpu_work.0 == 4_000_000,
            r.safety_margin.0 == 1_000_000,
    {
        Self {
            pre_surface_work: Duration::from_millis(2),
            surface_work: Duration::from_millis(2),
            gpu_work: Duration::from_millis(4),
            safety_margin: Duration::from_millis(1),
        }
    }
}

/// A platform frame opportunity used for stateless pacing decisions.
#[derive(Clone, Copy, Debug, PartialEq, Eq, Structural)]
pub struct FrameOpportunity {
    /// Current host time for the decision.
    pub now: Time,
    /// The platform's next predicted present time, when known.
    pub predicted_present_time: Option<Time>,
    /// The platform's current display-link interval, when known.
    pub frame_interval: Option<Duration>,
    /// The last time this content was presented, if known.
    ///
    /// This is retained for stateful hosts that need diagnostics or future policy extensions.
    /// Stateless planning treats the platform frame prediction as authoritative and does not
    /// synthesize cadence from this value.
    pub last_present_time: Option<Time>,
    /// A target chosen by an earlier opportunity that has not presented yet.
    ///
    /// Hosts with an external tick source can pass this to avoid re-planning a slow fixed-rate
    /// animation past its already selected cadence slot.
    pub pending_target_present_time: Option<Time>,
}

impl FrameOpportunity {
    /// Creates an opportunity at `now` without platform prediction.
    #[must_use]
    pub fn new(now: Time) -> (r: Self)
        ensures
            r == (FrameOpportunity {
                now,
                predicted_present_time: None,
                frame_interval: None,
                last_present_time: None,
                pending_target_present_time: None,
            }),
    {
        Self {
            now,
            predicted_present_time: None,
            frame_interval: None,
            last_present_time: None,
            pending_target_present_time: None,
        }
    }
}

/// Presentation instruction for platforms that can control present timing.
#[derive(Clone, Copy, Debug, PartialEq, Eq, Structural)]
pub enum Presentation {
    /// Present as soon as rendering is complete.
    AsSoonAsReady,
    /// Present no earlier than a host timestamp.
    At(Time),
    /// Present after the previous frame has remained visible for this duration.
    AfterMinimumDuration(Duration),
}

/// A stateless frame pacing decision.
#[derive(Clone, Copy, Debug, PartialEq, Eq, Structural)]
pub struct FramePacingDecision {
    /// The ideal visible time for produced content.
    pub target_present_time: Time,
    /// The selected interval for this frame.
    pub frame_interval: Duration,
    /// Time to start independent pre-surface work.
    pub pre_surface_work_start: Time,
    /// Time to acquire the surface and start surface-bound work.
    pub acquire_surface_at: Time,
    /// Deadline for CPU submission so GPU work can complete on time.
    pub submit_deadline: Time,
    /// Backend present instruction.
    pub presentation: Presentation,
}

/// The first of the slots `start`, `start + step`, `start + 2 * step`, ... that is not before
/// `bound`, held within the range of timestamps.
pub open spec fn first_slot_from(start: int, step: int, bound: int) -> int {
    if start >= bound {
        start
    } else {
        time::time_after(start, cadence::ceil_quotient(bound - start, step) * step)
    }
}

/// Everything that a pacing decision depends on.
pub struct PlanInput {
    /// The display.
    pub display: DisplayModel,
    /// The estimated work.
    pub estimate: FrameTimingEstimate,
    /// Why the frame is wanted.
    pub demand: FrameDemand,
    /// The opportunity.
    pub opportunity: FrameOpportunity,
}

impl PlanInput {
    /// The policy for the demand.
    pub open spec fn policy(self) -> DemandPolicy {
        self.demand.pressing_policy()
    }

    /// The display supports a range of intervals.
    pub open spec fn is_variable(self) -> bool {
        self.display.min != self.display.max
    }

    /// The time the frame should fit in. Animation wants an even cadence, not "barely fits", so
    /// a quarter of the fastest interval is reserved on top of the work.
    pub open spec fn needed(self) -> int {
        match self.policy() {
            DemandPolicy::Animation | DemandPolicy::Background => time::sat_duration(
                self.estimate.total_nanos() + self.display.min / 4,
            ),
            _ => self.estimate.total_nanos(),
        }
    }

    /// The interval the platform runs at, within what the display supports.
    pub open spec fn platform_interval(self) -> int {
        let reported = match self.opportunity.frame_interval {
            Some(interval) => interval.0 as int,
            None => self.display.min,
        };
        time::clamped(reported, self.display.min, self.display.max)
    }

    /// The interval selected for the frame. One-shot input follows the platform, and so does every
    /// cause on a fixed-rate display; a variable display steps down to what the work needs.
    pub open spec fn selected_interval(self) -> int {
        if self.policy() == DemandPolicy::Input {
            self.platform_interval()
        } else if self.is_variable() {
            time::larger(self.display.interval_for(self.needed()), self.platform_interval())
        } else if self.policy() == DemandPolicy::NoCause {
            self.display.interval_for(self.needed())
        } else {
            self.platform_interval()
        }
    }

    /// When the platform will present next: its prediction, or one interval from now; not in the
    /// past.
    pub open spec fn platform_present(self) -> int {
        let predicted = match self.opportunity.predicted_present_time {
            Some(time) => time.0 as int,
            None => time::time_after(self.opportunity.now.0 as int, self.platform_interval()),
        };
        time::larger(predicted, self.opportunity.now.0 as int)
    }

    /// The earliest time at which work started now is ready.
    pub open spec fn earliest_ready(self) -> int {
        time::time_after(self.opportunity.now.0 as int, self.estimate.total_nanos())
    }

    /// The frame is slower than the platform: a longer interval was selected for it. A fixed-rate
    /// animation keeps the display's interval, and it is slow when its work takes longer than that.
    pub open spec fn is_slow(self) -> bool {
        if !self.is_variable() && self.policy() == DemandPolicy::Animation {
            self.estimate.total_nanos() > self.platform_interval()
        } else {
            self.selected_interval() > self.platform_interval()
        }
    }

    /// The pending target is kept: the frame is not input, it is slow, and the target can still be
    /// met, is no earlier than the platform's next presentation, and keeps its distance from the
    /// last one.
    pub open spec fn keeps_pending_target(self) -> bool {
        &&& self.policy() != DemandPolicy::Input
        &&& self.policy() != DemandPolicy::ContinuousInput
        &&& self.is_slow()
        &&& self.opportunity.pending_target_present_time matches Some(pending)
        &&& pending.0 >= self.earliest_ready()
        &&& self.opportunity.last_present_time matches Some(last) ==> pending.0 >= time::time_after(
            last.0 as int,
            self.selected_interval(),
        )
        &&& pending.0 >= self.platform_present()
        &&& pending.0 > self.opportunity.now.0
    }

    /// The first slot of the selected cadence.
    pub open spec fn cadence_start(self) -> int {
        if self.selected_interval() > self.platform_interval() {
            time::time_after(
                self.platform_present(),
                self.selected_interval() - self.platform_interval(),
            )
        } else {
            self.platform_present()
        }
    }

    /// The time the frame should be visible: a pending target that is kept, as soon as possible
    /// for input, and otherwise the first slot of the cadence that the work can meet.
    pub open spec fn target(self) -> int {
        if self.keeps_pending_target() {
            let pending = self.opportunity.pending_target_present_time->0;
            pending.0 as int
        } else if self.policy() == DemandPolicy::Input {
            time::larger(self.platform_present(), self.earliest_ready())
        } else {
            first_slot_from(self.cadence_start(), self.selected_interval(), self.earliest_ready())
        }
    }

    /// The present instruction.
    pub open spec fn presentation(self) -> Presentation {
        if self.keeps_pending_target() && self.is_variable() {
            Presentation::At(Time(self.target() as i64))
        } else if self.policy() == DemandPolicy::Input || self.policy()
            == DemandPolicy::ContinuousInput && self.selected_interval()
            == self.platform_interval() {
            Presentation::AsSoonAsReady
        } else {
            Presentation::AfterMinimumDuration(Duration(self.selected_interval() as u64))
        }
    }

    /// There is a slot to plan for. Only a cadence without an interval has none: its one slot may
    /// come before the work can be ready.
    pub open spec fn has_slot(self) -> bool {
        ||| self.keeps_pending_target()
        ||| self.policy() == DemandPolicy::Input
        ||| self.selected_interval() > 0
        ||| self.cadence_start() >= self.earliest_ready()
    }
}

/// Computes a platform-independent pacing decision for one frame.
///
/// This is the pure policy function behind `FramePacer`. Hosts that already own a
/// frame-opportunity source, such as a display-link callback or browser `requestAnimationFrame`,
/// can use this directly without adopting the stateful pacer.
///
/// There must be a slot to plan for ([`PlanInput::has_slot`]): a display without an interval
/// offers none to smooth work that is not ready at once.
#[must_use]
pub fn plan_frame(
    display: DisplayTiming,
    estimate: FrameTimingEstimate,
    demand: FrameDemand,
    opportunity: FrameOpportunity,
) -> (r: FramePacingDecision)
    requires
        (PlanInput { display: display@, estimate, demand, opportunity }).has_slot(),
    ensures
        ({
            let input = PlanInput { display: display@, estimate, demand, opportunity };
            &&& r.target_present_time.0 == input.target()
            &&& r.frame_interval.0 == input.selected_interval()
            &&& r.pre_surface_work_start.0 == time::time_before(
                input.target(),
                estimate.total_nanos(),
            )
            &&& r.acquire_surface_at.0 == time::time_before(input.target(), estimate.ready_nanos())
            &&& r.submit_deadline.0 == time::time_before(input.target(), estimate.gpu_work.0 as int)
            &&& r.presentation == input.presentation()
        }),
{
    let ghost input = PlanInput { display: display@, estimate, demand, opportunity };
    let policy = demand.policy();
    let total_work = estimate.total_work();
    let min_interval = display.min_interval();
    let needed = match policy {
        DemandPolicy::Animation | DemandPolicy::Background => total_work + min_interval.div_u64(4),
        _ => total_work,
    };
    let platform_interval = opportunity.frame_interval.unwrap_or(min_interval).clamp(
        min_interval,
        display.max_interval(),
    );
    let selected_interval = if policy == DemandPolicy::Input {
        platform_interval
    } else if display.is_variable() {
        longer(display.choose_interval(needed), platform_interval)
    } else if policy == DemandPolicy::NoCause {
        display.choose_interval(needed)
    } else {
        platform_interval
    };
    let platform_present = opportunity.predicted_present_time.unwrap_or(
        opportunity.now + platform_interval,
    ).max(opportunity.now);
    let earliest_ready = opportunity.now + total_work;
    assert(needed.0 == input.needed());
    assert(platform_interval.0 == input.platform_interval());
    assert(selected_interval.0 == input.selected_interval());
    assert(platform_present.0 == input.platform_present());
    assert(earliest_ready.0 == input.earliest_ready());

    let is_slow = if !display.is_variable() && policy == DemandPolicy::Animation {
        total_work > platform_interval
    } else {
        selected_interval > platform_interval
    };
    let kept_target = kept_pending_target(
        policy,
        opportunity,
        is_slow,
        selected_interval,
        platform_present,
        earliest_ready,
    );
    assert(kept_target is Some == input.keeps_pending_target());
    let target_present_time = match kept_target {
        Some(pending_target) => pending_target,
        None => if policy == DemandPolicy::Input {
            platform_present.max(earliest_ready)
        } else {
            let cadence_start = if selected_interval > platform_interval {
                platform_present + (selected_interval - platform_interval)
            } else {
                platform_present
            };
            roll_to_slot(cadence_start, selected_interval, earliest_ready)
        },
    };
    let presentation = if kept_target.is_some() && display.is_variable() {
        Presentation::At(target_present_time)
    } else if policy == DemandPolicy::Input || (policy == DemandPolicy::ContinuousInput
        && selected_interval == platform_interval) {
        Presentation::AsSoonAsReady
    } else {
        Presentation::AfterMinimumDuration(selected_interval)
    };

    FramePacingDecision {
        target_present_time,
        frame_interval: selected_interval,
        pre_surface_work_start: target_present_time - total_work,
        acquire_surface_at: target_present_time - estimate.surface_to_ready(),
        submit_deadline: target_present_time - estimate.gpu_work,
        presentation,
    }
}

/// The pending target of `opportunity`, where it is still worth keeping.
fn kept_pending_target(
    policy: DemandPolicy,
    opportunity: FrameOpportunity,
    is_slow: bool,
    selected_interval: Duration,
    platform_present: Time,
    earliest_ready: Time,
) -> (r: Option<Time>)
    ensures
        r == match opportunity.pending_target_present_time {
            Some(pending) if policy != DemandPolicy::Input && policy
                != DemandPolicy::ContinuousInput && is_slow && pending.0 >= earliest_ready.0
                && (match opportunity.last_present_time {
                Some(last) => pending.0 >= time::time_after(
                    last.0 as int,
                    selected_interval.0 as int,
                ),
                None => true,
            }) && pending.0 >= platform_present.0 && pending.0 > opportunity.now.0 => Some(pending),
            _ => None,
        },
{
    if policy == DemandPolicy::Input || policy == DemandPolicy::ContinuousInput || !is_slow {
        return None;
    }
    let pending_target = match opportunity.pending_target_present_time {
        Some(pending_target) => pending_target,
        None => {
            return None;
        },
    };
    let keeps_distance = match opportunity.last_present_time {
        Some(last_present) => pending_target >= last_present + selected_interval,
        None => true,
    };
    if pending_target >= earliest_ready && keeps_distance && pending_target >= platform_present
        && pending_target > opportunity.now {
        Some(pending_target)
    } else {
        None
    }
}

/// Moves from `start` in whole intervals to the first slot that is not before `bound`.
fn roll_to_slot(start: Time, interval: Duration, bound: Time) -> (r: Time)
    requires
        interval.0 > 0 || start.0 >= bound.0,
    ensures
        r.0 == first_slot_from(start.0 as int, interval.0 as int, bound.0 as int),
{
    let ghost step = interval.0 as int;
    let ghost mut rolls: int = 0;
    let mut target = start;
    while target < bound
        invariant
            step == interval.0,
            step > 0 || start.0 >= bound.0,
            rolls >= 0,
            target.0 == time::time_after(start.0 as int, rolls * step),
            rolls > 0 ==> step > 0 && start.0 + (rolls - 1) * step < bound.0,
            rolls == 0 ==> target == start,
        decreases time::larger(bound.0 - target.0, 0),
    {
        proof {
            assert(rolls * step >= 0) by (nonlinear_arith)
                requires
                    rolls >= 0,
                    step >= 0,
            ;
            assert((rolls + 1) * step == rolls * step + step) by (nonlinear_arith);
            assert((rolls + 1 - 1) * step == rolls * step);
            assert(target.0 == start.0 + rolls * step);
            rolls = rolls + 1;
        }
        target = target + interval;
    }
    proof {
        if start.0 < bound.0 {
            assert(rolls > 0);
            let rest = bound.0 - start.0 - (rolls - 1) * step;
            assert(rolls * step == (rolls - 1) * step + step) by (nonlinear_arith);
            assert((rolls - 1) * step + rest == bound.0 - start.0);
            cadence::lemma_ceil_quotient(rolls - 1, rest, step);
        } else if rolls > 0 {
            assert((rolls - 1) * step >= 0) by (nonlinear_arith)
                requires
                    rolls > 0,
                    step > 0,
            ;
        }
    }
    target
}

/// The rolled slot is not before the bound, is not before the start, and is the earliest such
/// slot: every other one that the bound allows comes no sooner.
proof fn lemma_first_slot(start: int, step: int, bound: int, rolls: int)
    requires
        i64::MIN <= start <= i64::MAX,
        bound <= i64::MAX,
        step > 0 || start >= bound,
        step >= 0,
        rolls >= 0,
    ensures
        first_slot_from(start, step, bound) >= bound,
        first_slot_from(start, step, bound) >= start,
        first_slot_from(start, step, bound) <= i64::MAX,
        first_slot_from(start, step, bound) == start || first_slot_from(start, step, bound) - step
            < bound,
        bound <= start + rolls * step <= i64::MAX ==> first_slot_from(start, step, bound) <= start
            + rolls * step,
{
    if start < bound {
        let gap = bound - start;
        let (q, rest) = ((gap - 1) / step, (gap - 1) % step);
        vstd::arithmetic::div_mod::lemma_fundamental_div_mod(gap - 1, step);
        vstd::arithmetic::div_mod::lemma_div_pos_is_pos(gap - 1, step);
        assert((q + 1) * step == step * q + step) by (nonlinear_arith);
        assert(cadence::ceil_quotient(gap, step) == q + 1);
        if bound <= start + rolls * step {
            if rolls <= q {
                assert(rolls * step <= step * q) by (nonlinear_arith)
                    requires
                        rolls <= q,
                        step > 0,
                ;
            }
            assert(rolls * step >= (q + 1) * step) by (nonlinear_arith)
                requires
                    rolls >= q + 1,
                    step > 0,
            ;
        }
    } else {
        assert(rolls * step >= 0) by (nonlinear_arith)
            requires
                rolls >= 0,
                step >= 0,
        ;
    }
}

/// The intervals and times of a plan are durations and timestamps.
proof fn lemma_plan_ranges(input: PlanInput)
    requires
        input.display.wf(),
    ensures
        input.display.min <= input.platform_interval() <= input.display.max,
        input.platform_interval() <= input.selected_interval(),
        i64::MIN <= input.opportunity.now.0 <= input.platform_present() <= i64::MAX,
        input.opportunity.now.0 <= input.earliest_ready() <= i64::MAX,
        input.platform_present() <= input.cadence_start() <= i64::MAX,
{
    let model = input.display;
    if model.min == model.max && model.effective_step() is None {
        let times = time::larger(display::covering_multiples(input.needed(), model.min), 1);
        assert(model.min * times >= model.min) by (nonlinear_arith)
            requires
                model.min >= 0,
                times >= 1,
        ;
    }
}

/// The phases of a frame follow each other: pre-surface work starts no later than the surface is
/// acquired, that no later than the work is submitted, and that no later than the frame is shown.
pub proof fn law_phases_are_ordered(input: PlanInput)
    requires
        input.display.wf(),
        input.has_slot(),
    ensures
        time::time_before(input.target(), input.estimate.total_nanos()) <= time::time_before(
            input.target(),
            input.estimate.ready_nanos(),
        ) <= time::time_before(input.target(), input.estimate.gpu_work.0 as int) <= input.target(),
{
    law_target_can_be_met(input);
}

/// The frame is never targeted before its work can be ready, nor before the platform's next
/// presentation, nor in the past; and so its work never has to start before now, unless the ready
/// time had to be capped.
pub proof fn law_target_can_be_met(input: PlanInput)
    requires
        input.display.wf(),
        input.has_slot(),
    ensures
        input.target() >= input.earliest_ready(),
        input.target() >= input.platform_present(),
        input.opportunity.now.0 <= input.target() <= i64::MAX,
        input.opportunity.now.0 + input.estimate.total_nanos() <= i64::MAX ==> time::time_before(
            input.target(),
            input.estimate.total_nanos(),
        ) >= input.opportunity.now.0,
{
    lemma_plan_ranges(input);
    if !input.keeps_pending_target() && input.policy() != DemandPolicy::Input {
        lemma_first_slot(
            input.cadence_start(),
            input.selected_interval(),
            input.earliest_ready(),
            0,
        );
    }
}

/// Smooth work waits for no more slots than it has to: unless it is the first slot of the cadence
/// or a pending target, the slot before the target comes too early for the work.
pub proof fn law_target_is_the_earliest_feasible_slot(input: PlanInput)
    requires
        input.display.wf(),
        input.has_slot(),
        input.policy() != DemandPolicy::Input,
        !input.keeps_pending_target(),
    ensures
        input.target() == input.cadence_start() || input.target() - input.selected_interval()
            < input.earliest_ready(),
{
    lemma_plan_ranges(input);
    lemma_first_slot(input.cadence_start(), input.selected_interval(), input.earliest_ready(), 0);
}

/// Slow work that is not input is not planned past a slot that an earlier opportunity chose for it:
/// where it can still meet that pending target, the target stands, for a fixed-rate animation as on
/// a variable display, wherever the current cadence puts its slots. A target that comes before the
/// platform's next presentation, or too soon after the last one, cannot be met.
pub proof fn law_no_planning_past_a_feasible_slot(input: PlanInput, pending: Time)
    requires
        input.policy() != DemandPolicy::Input,
        input.policy() != DemandPolicy::ContinuousInput,
        input.is_slow(),
        input.opportunity.pending_target_present_time == Some(pending),
        pending.0 > input.opportunity.now.0,
        pending.0 >= input.earliest_ready(),
        pending.0 >= input.platform_present(),
        input.opportunity.last_present_time matches Some(last) ==> pending.0 >= time::time_after(
            last.0 as int,
            input.selected_interval(),
        ),
    ensures
        input.target() == pending.0,
{
}

/// Smooth work, slow or not, is not planned past a slot of its current cadence that it can still
/// meet: `rolls` intervals after the cadence starts.
pub proof fn law_no_planning_past_a_slot_of_the_cadence(input: PlanInput, rolls: nat)
    requires
        input.display.wf(),
        input.has_slot(),
        input.policy() != DemandPolicy::Input,
        input.opportunity.pending_target_present_time matches Some(pending) && pending.0
            == input.cadence_start() + rolls * input.selected_interval() && pending.0
            >= input.earliest_ready(),
    ensures
        input.opportunity.pending_target_present_time matches Some(pending) && input.target()
            <= pending.0,
{
    lemma_plan_ranges(input);
    if !input.keeps_pending_target() {
        lemma_first_slot(
            input.cadence_start(),
            input.selected_interval(),
            input.earliest_ready(),
            rolls as int,
        );
    }
}

/// The selected interval is never shorter than the platform's, which the display supports.
pub proof fn law_selected_interval_covers_the_platform(input: PlanInput)
    requires
        input.display.wf(),
    ensures
        input.display.min <= input.platform_interval() <= input.display.max,
        input.platform_interval() <= input.selected_interval(),
{
    lemma_plan_ranges(input);
}

/// A display with an interval always has a slot to plan for.
pub proof fn law_displays_with_an_interval_have_a_slot(input: PlanInput)
    requires
        input.display.wf(),
        input.display.min > 0,
    ensures
        input.has_slot(),
{
    lemma_plan_ranges(input);
}

/// On a fixed-rate display, heavier smooth work that still fits before the predicted presentation
/// keeps that target and starts earlier, not later. Work that keeps a pending target has that one
/// instead.
pub proof fn law_heavier_work_starts_earlier(
    display: DisplayModel,
    light: FrameTimingEstimate,
    heavy: FrameTimingEstimate,
    demand: FrameDemand,
    opportunity: FrameOpportunity,
    predicted: Time,
)
    requires
        display.wf(),
        display.min == display.max,
        light.total_nanos() <= heavy.total_nanos(),
        demand.pressing_policy() != DemandPolicy::Input,
        demand.pressing_policy() != DemandPolicy::NoCause,
        opportunity.predicted_present_time == Some(predicted),
        opportunity.now.0 <= predicted.0,
        time::time_after(opportunity.now.0 as int, heavy.total_nanos()) <= predicted.0,
        !(PlanInput { display, estimate: light, demand, opportunity }).keeps_pending_target(),
        !(PlanInput { display, estimate: heavy, demand, opportunity }).keeps_pending_target(),
    ensures
        (PlanInput { display, estimate: light, demand, opportunity }).target() == predicted.0,
        (PlanInput { display, estimate: heavy, demand, opportunity }).target() == predicted.0,
        time::time_before(predicted.0 as int, heavy.total_nanos()) <= time::time_before(
            predicted.0 as int,
            light.total_nanos(),
        ),
{
    let a = PlanInput { display, estimate: light, demand, opportunity };
    let b = PlanInput { display, estimate: heavy, demand, opportunity };
    lemma_plan_ranges(a);
    lemma_plan_ranges(b);
}

/// One-shot input is never held back: it is shown at the earliest time that the platform and its
/// own work allow, and as soon as it is ready.
pub proof fn law_input_is_shown_as_soon_as_possible(input: PlanInput, time: int)
    requires
        input.policy() == DemandPolicy::Input,
        input.platform_present() <= time,
        input.earliest_ready() <= time,
    ensures
        input.target() <= time,
        input.presentation() == Presentation::AsSoonAsReady,
{
}

/// On a fixed-rate display a frame with a cause keeps the display's interval, however late the
/// opportunity arrives and whatever interval it reports.
pub proof fn law_fixed_displays_keep_their_interval(input: PlanInput)
    requires
        input.display.wf(),
        input.display.min == input.display.max,
        input.policy() != DemandPolicy::NoCause,
    ensures
        input.platform_interval() == input.display.min,
        input.selected_interval() == input.display.min,
{
}

/// The last presentation does not shift the cadence: it only matters for whether a pending target
/// is kept, and without one the decision is the same for every last presentation.
pub proof fn law_last_presentation_does_not_shift_the_cadence(
    input: PlanInput,
    last_present_time: Option<Time>,
)
    requires
        input.opportunity.pending_target_present_time is None,
    ensures
        ({
            let other = PlanInput {
                opportunity: FrameOpportunity { last_present_time, ..input.opportunity },
                ..input
            };
            &&& other.target() == input.target()
            &&& other.selected_interval() == input.selected_interval()
            &&& other.presentation() == input.presentation()
            &&& other.has_slot() == input.has_slot()
        }),
{
}

/// Input never waits for the pending target of an earlier opportunity: the decision is the same
/// for every pending target.
pub proof fn law_input_ignores_pending_targets(input: PlanInput, pending: Option<Time>)
    requires
        input.policy() == DemandPolicy::Input || input.policy() == DemandPolicy::ContinuousInput,
    ensures
        ({
            let other = PlanInput {
                opportunity: FrameOpportunity {
                    pending_target_present_time: pending,
                    ..input.opportunity
                },
                ..input
            };
            &&& other.target() == input.target()
            &&& other.selected_interval() == input.selected_interval()
            &&& other.presentation() == input.presentation()
            &&& other.has_slot() == input.has_slot()
        }),
{
}

/// The estimates add up: a frame takes the time of all its phases and the safety margin, and from
/// its surface on the same without the work before it, as far as a duration can count.
pub proof fn law_estimates_add_up(estimate: FrameTimingEstimate)
    ensures
        ({
            let surface = estimate.surface_work.0 + estimate.gpu_work.0 + estimate.safety_margin.0;
            let all = estimate.pre_surface_work.0 + surface;
            &&& all <= u64::MAX ==> estimate.total_nanos() == all
            &&& all > u64::MAX ==> estimate.total_nanos() == u64::MAX
            &&& surface <= u64::MAX ==> estimate.ready_nanos() == surface
            &&& surface > u64::MAX ==> estimate.ready_nanos() == u64::MAX
        }),
{
}

/// A decision is made of durations and timestamps: nothing is cut off when it is handed out.
pub proof fn law_decision_fits_its_types(input: PlanInput)
    requires
        input.display.wf(),
        input.has_slot(),
    ensures
        0 <= input.selected_interval() <= u64::MAX,
        i64::MIN <= input.target() <= i64::MAX,
{
    lemma_plan_ranges(input);
    law_target_can_be_met(input);
}

/// On a variable-refresh display every demand but one-shot input steps down to an interval that
/// contains its work, and no further. The need of continuous input is its work alone; animation and
/// background work also need a quarter of the fastest interval. The chosen interval is never
/// shorter than the platform's, which is what it reports moved into the display's range, and where
/// it is longer it is the smallest supported interval that contains the need: a whole number of the
/// fastest intervals where the display reports no granularity (`multiple` is a number of them that
/// does), a whole number of steps or else the slowest interval where it has steps, and the need
/// itself up to the slowest interval where it has continuous control.
pub proof fn law_variable_displays_step_down_to_contain_the_work(input: PlanInput, multiple: nat)
    requires
        input.display.wf(),
        input.display.min < input.display.max,
        input.demand.0 & 2 != 2,
    ensures
        ({
            let (min, max) = (input.display.min, input.display.max);
            let work = input.estimate.total_nanos();
            let need = if input.demand.0 & 4 == 4 || input.demand.0 & 15 == 0 {
                work
            } else {
                time::sat_duration(work + min / 4)
            };
            let reported = match input.opportunity.frame_interval {
                Some(interval) => interval.0 as int,
                None => min,
            };
            let platform = if reported < min {
                min
            } else if reported > max {
                max
            } else {
                reported
            };
            let chosen = input.selected_interval();
            &&& chosen >= platform
            &&& match input.display.granularity {
                None => 0 < min && need <= multiple * min <= u64::MAX ==> {
                    &&& chosen >= need
                    &&& chosen >= work
                    &&& chosen > platform ==> chosen % min == 0 && (chosen > min ==> chosen - min
                        < need)
                },
                Some(step) => if step != 0 && step != min {
                    &&& chosen <= max
                    &&& need <= step * (u64::MAX as int / step) ==> {
                        ||| chosen + 1_000 >= need
                        ||| chosen + 1_000 >= max
                    }
                    &&& chosen > platform ==> (chosen - step < need || chosen - step < min) && (
                    chosen % step == 0 || chosen == max)
                } else {
                    &&& chosen <= max
                    &&& chosen >= need || chosen == max
                    &&& chosen > platform ==> chosen == need || chosen == max && need > max
                },
            }
        }),
{
    let model = input.display;
    let x = input.demand.0;
    let need = input.needed();
    assert(x & 2 != 2 ==> (x & 6 == 4 <==> x & 4 == 4)) by (bit_vector);
    assert(x & 4 == 4 ==> x & 15 != 8 && x & 15 != 0 && x & 7 != 1) by (bit_vector);
    assert(x & 15 == 0 ==> x & 7 != 1) by (bit_vector);
    assert(x & 2 != 2 && x & 4 != 4 && x & 15 != 0 ==> x & 7 == 1 || x & 15 == 8) by (bit_vector);
    crate::demand::law_policy_follows_the_most_urgent_cause(input.demand);
    assert(need <= u64::MAX);
    let needed = Duration(need as u64);
    if model.granularity is None {
        if 0 < model.min && need <= multiple * model.min <= u64::MAX {
            display::law_continuous_interval_contains_work(model, needed, multiple);
        }
    } else if model.effective_step() is Some {
        let step = model.effective_step()->0;
        display::law_stepped_interval_contains_work(model, needed);
        let count = display::covering_multiples(time::clamped(need, model.min, model.max), step);
        vstd::arithmetic::div_mod::lemma_mod_multiples_basic(count, step);
    }
}

/// One-shot input runs at the platform's interval, which is what it reports moved into the
/// display's range, or the fastest one; and so does every cause on a fixed-rate display, whatever
/// its work. Only a frame without a cause takes as many refreshes there as contain its work, up to
/// the timing tolerance: `multiple` is a number of them that does.
pub proof fn law_input_and_fixed_displays_follow_the_platform(input: PlanInput, multiple: nat)
    requires
        input.display.wf(),
    ensures
        ({
            let (min, max) = (input.display.min, input.display.max);
            let reported = match input.opportunity.frame_interval {
                Some(interval) => interval.0 as int,
                None => min,
            };
            let chosen = input.selected_interval();
            let work = input.estimate.total_nanos();
            &&& input.demand.0 & 2 == 2 ==> {
                &&& reported < min ==> chosen == min
                &&& reported > max ==> chosen == max
                &&& min <= reported <= max ==> chosen == reported
            }
            &&& min == max && input.demand.0 & 15 != 0 ==> chosen == min
            &&& min == max && input.demand.0 & 15 == 0 && min > 0 && input.display.granularity
                == Some(min) && work <= multiple * min <= u64::MAX ==> {
                &&& chosen % min == 0
                &&& chosen + 1_000 >= work
                &&& chosen > min ==> chosen - min < work
            }
        }),
{
    let (model, x) = (input.display, input.demand.0);
    assert(x & 2 == 2 ==> x & 15 != 0) by (bit_vector);
    crate::demand::law_policy_follows_the_most_urgent_cause(input.demand);
    let work = input.estimate.total_nanos();
    if model.min == model.max && model.min > 0 && model.granularity == Some(model.min) && work
        <= multiple * model.min <= u64::MAX {
        let base = Duration(model.min as u64);
        display::law_fixed_interval_contains_work(base, Duration(work as u64), multiple);
    }
}

/// When a frame is shown. The platform presents at its prediction, or one of its intervals from
/// now, but not in the past. One-shot input is shown then, or when its work is done if that is
/// later. A pending target stands for slow work that is not input, if it is still to come, can be
/// met, is not before the platform's next presentation and keeps one interval from the last one.
/// Everything else is shown in the first slot that its work can meet, where slots are one frame
/// interval apart and the first comes later than the platform's next presentation by as much as
/// the frame interval is longer than the platform's. Only the end of time cuts this off.
pub proof fn law_target_is_the_first_time_that_fits(input: PlanInput)
    requires
        input.display.wf(),
        input.has_slot(),
    ensures
        ({
            let (min, max) = (input.display.min, input.display.max);
            let now = input.opportunity.now.0 as int;
            let work = input.estimate.total_nanos();
            let ready = time::time_after(now, work);
            let reported = match input.opportunity.frame_interval {
                Some(interval) => interval.0 as int,
                None => min,
            };
            let platform = if reported < min {
                min
            } else if reported > max {
                max
            } else {
                reported
            };
            let predicted = match input.opportunity.predicted_present_time {
                Some(predicted) => predicted.0 as int,
                None => time::time_after(now, platform),
            };
            let present = if predicted >= now {
                predicted
            } else {
                now
            };
            let chosen = input.selected_interval();
            let slow = if min == max && input.demand.0 & 7 == 1 {
                work > platform
            } else {
                chosen > platform
            };
            let stands = input.demand.0 & 2 != 2 && input.demand.0 & 4 != 4 && slow && (match (
                input.opportunity.pending_target_present_time
            ) {
                Some(pending) => pending.0 > now && pending.0 >= ready && pending.0 >= present && (
                match input.opportunity.last_present_time {
                    Some(last) => pending.0 >= time::time_after(last.0 as int, chosen),
                    None => true,
                }),
                None => false,
            });
            let first = if chosen > platform {
                time::time_after(present, chosen - platform)
            } else {
                present
            };
            let target = input.target();
            &&& target >= ready
            &&& target >= present
            &&& input.demand.0 & 2 == 2 ==> target == ready || target == present
            &&& stands ==> input.opportunity.pending_target_present_time == Some(
                Time(target as i64),
            )
            &&& input.demand.0 & 2 != 2 && !stands ==> {
                &&& target >= first
                &&& target == first || target - chosen < ready
                &&& target == first || target == i64::MAX || (target - first) % chosen == 0
            }
        }),
{
    let x = input.demand.0;
    assert(x & 2 != 2 ==> (x & 6 == 4 <==> x & 4 == 4)) by (bit_vector);
    assert(x & 7 == 1 ==> x & 2 != 2 && x & 4 != 4) by (bit_vector);
    crate::demand::law_policy_follows_the_most_urgent_cause(input.demand);
    law_target_can_be_met(input);
    lemma_plan_ranges(input);
    if !input.keeps_pending_target() && input.policy() != DemandPolicy::Input {
        let (first, step) = (input.cadence_start(), input.selected_interval());
        lemma_first_slot(first, step, input.earliest_ready(), 0);
        if first < input.earliest_ready() {
            let rolls = cadence::ceil_quotient(input.earliest_ready() - first, step);
            vstd::arithmetic::div_mod::lemma_mod_multiples_basic(rolls, step);
        }
    }
}

/// How a frame is presented: one-shot input as soon as it is ready, and continuous input too as
/// long as it keeps up with the platform; a kept pending target on a variable-refresh display at
/// exactly that time; and everything else after the frame before it was visible for the chosen
/// interval.
pub proof fn law_presentation_suits_the_demand(input: PlanInput)
    requires
        input.display.wf(),
        input.has_slot(),
    ensures
        ({
            let (min, max) = (input.display.min, input.display.max);
            let chosen = input.selected_interval();
            let reported = match input.opportunity.frame_interval {
                Some(interval) => interval.0 as int,
                None => min,
            };
            let platform = if reported < min {
                min
            } else if reported > max {
                max
            } else {
                reported
            };
            let input_demand = input.demand.0 & 2 == 2 || input.demand.0 & 4 == 4;
            let how = input.presentation();
            &&& input.demand.0 & 2 == 2 ==> how == Presentation::AsSoonAsReady
            &&& input.demand.0 & 4 == 4 && chosen == platform ==> how
                == Presentation::AsSoonAsReady
            &&& input.demand.0 & 6 == 4 && chosen != platform ==> how
                == Presentation::AfterMinimumDuration(Duration(chosen as u64))
            &&& !input_demand ==> how != Presentation::AsSoonAsReady
            &&& how matches Presentation::At(time) ==> {
                &&& min < max
                &&& time.0 == input.target()
                &&& input.opportunity.pending_target_present_time == Some(time)
                &&& chosen > platform
            }
            &&& how matches Presentation::AfterMinimumDuration(visible) ==> visible.0 == chosen
            &&& !input_demand && (min == max || chosen <= platform
                || input.opportunity.pending_target_present_time is None) ==> how
                is AfterMinimumDuration
            &&& !input_demand && min < max && chosen > platform && (
            input.opportunity.pending_target_present_time matches Some(pending) && pending.0
                == input.target() && input.keeps_pending_target()) ==> how is At
        }),
{
    let x = input.demand.0;
    assert(x & 6 == 4 <==> x & 4 == 4 && x & 2 != 2) by (bit_vector);
    crate::demand::law_policy_follows_the_most_urgent_cause(input.demand);
    law_decision_fits_its_types(input);
}

/// One-shot input can always be planned, and so can any demand whose work is done by the platform's
/// next presentation.
pub proof fn law_input_and_ready_work_have_a_slot(input: PlanInput)
    requires
        input.display.wf(),
        input.demand.0 & 2 == 2 || (input.opportunity.predicted_present_time matches Some(predicted)
            && predicted.0 >= time::time_after(
            input.opportunity.now.0 as int,
            input.estimate.total_nanos(),
        )),
    ensures
        input.has_slot(),
{
    crate::demand::law_policy_follows_the_most_urgent_cause(input.demand);
    lemma_plan_ranges(input);
}

} // verus!
