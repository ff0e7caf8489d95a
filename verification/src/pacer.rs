//! The stateful frame pacer, which plans frames and walks each through its phases.

use crate::begin_frame;
use crate::demand::{self, DemandPolicy, FrameDemand};
use crate::display::{DisplayModel, DisplayTiming};
use crate::plan::{self, plan_frame, FrameOpportunity, FrameTimingEstimate, PlanInput, Presentation};
use crate::time::{self, Duration, Time};
use vstd::prelude::*;

verus! {

/// A scheduler-selected frame identifier.
#[derive(Clone, Copy, Debug, Default, PartialEq, Eq, PartialOrd, Ord, Hash, Structural)]
pub struct FrameId(u64);

impl FrameId {
    /// The raw number.
    pub closed spec fn number(self) -> u64 {
        self.0
    }

    /// The identifier with a raw number.
    pub closed spec fn numbered(number: u64) -> Self {
        FrameId(number)
    }

    /// Returns the raw numeric identifier.
    #[must_use]
    pub fn get(self) -> (r: u64)
        ensures
            r == self.number(),
            self == FrameId::numbered(r),
    {
        self.0
    }
}

/// A planned frame target.
#[derive(Clone, Copy, Debug, PartialEq, Eq, Structural)]
pub struct FramePlan {
    /// Stable frame identifier for phase reports.
    pub id: FrameId,
    /// The demand that selected this frame.
    pub demand: FrameDemand,
    /// The ideal visible time for the produced content.
    pub target_present_time: Time,
    /// The selected display interval for this frame.
    pub frame_interval: Duration,
    /// Time at which the app should wake to begin independent pre-surface work.
    pub pre_surface_work_start: Time,
    /// Time at which the app should wake again and acquire the surface.
    pub acquire_surface_at: Time,
    /// Deadline for finishing surface CPU work and submitting GPU work.
    pub submit_deadline: Time,
}

/// The next scheduler action for the host app.
#[derive(Clone, Copy, Debug, PartialEq, Eq, Structural)]
pub enum Action {
    /// No work is pending.
    Idle,
    /// Sleep until this timestamp before asking the scheduler again.
    SleepUntil(Time),
    /// Start work that does not require an acquired surface.
    ///
    /// The app receives this action at or after [`FramePlan::pre_surface_work_start`].
    StartPreSurfaceWork(FramePlan),
    /// Acquire a drawable/swapchain image and perform surface-bound work.
    ///
    /// The app receives this action at or after [`FramePlan::acquire_surface_at`].
    AcquireSurface(FramePlan),
    /// Submit/present the finished frame using the provided presentation mode.
    ///
    /// This is returned immediately after surface work is reported complete. It is not a separate
    /// timed wake point.
    Present {
        /// Planned frame.
        plan: FramePlan,
        /// Presentation instruction.
        presentation: Presentation,
    },
}

impl Action {
    /// The plan carried by frame-specific actions.
    pub open spec fn carried_plan(self) -> Option<FramePlan> {
        match self {
            Action::Idle | Action::SleepUntil(_) => None,
            Action::StartPreSurfaceWork(plan) => Some(plan),
            Action::AcquireSurface(plan) => Some(plan),
            Action::Present { plan, .. } => Some(plan),
        }
    }

    /// Returns true if this action starts independent pre-surface work.
    #[must_use]
    pub fn is_start_pre_surface_work(self) -> (r: bool)
        ensures
            r == self is StartPreSurfaceWork,
    {
        matches!(self, Action::StartPreSurfaceWork(_))
    }

    /// Returns the frame id carried by frame-specific actions.
    #[must_use]
    pub fn frame_id(self) -> (r: Option<FrameId>)
        ensures
            r == match self.carried_plan() {
                Some(plan) => Some(plan.id),
                None => None,
            },
    {
        match self {
            Action::StartPreSurfaceWork(plan) => Some(plan.id),
            Action::AcquireSurface(plan) => Some(plan.id),
            Action::Present { plan, .. } => Some(plan.id),
            Action::Idle | Action::SleepUntil(_) => None,
        }
    }
}

/// A phase of a frame that is measured.
#[derive(Clone, Copy, Debug, PartialEq, Eq, Structural)]
pub enum Phase {
    /// Independent pre-surface work.
    Frame,
    /// Surface-bound CPU work.
    Surface,
    /// GPU execution.
    Gpu,
}

/// What a [`FramePhaseReport`] says.
pub struct PhaseReportModel {
    /// The frame it is about.
    pub frame_id: FrameId,
    /// The measured phase.
    pub phase: Phase,
    /// When the phase started.
    pub start: Time,
    /// When the phase ended.
    pub end: Time,
}

impl PhaseReportModel {
    /// The nanoseconds that the phase took.
    pub open spec fn observed(self) -> int {
        time::elapsed(self.start.0 as int, self.end.0 as int)
    }
}

/// A measured phase that updates the scheduler's timing model.
#[derive(Clone, Copy, Debug, PartialEq, Eq, Structural)]
pub struct FramePhaseReport {
    frame_id: FrameId,
    phase: Phase,
    start: Time,
    end: Time,
}

impl View for FramePhaseReport {
    type V = PhaseReportModel;

    closed spec fn view(&self) -> PhaseReportModel {
        PhaseReportModel {
            frame_id: self.frame_id,
            phase: self.phase,
            start: self.start,
            end: self.end,
        }
    }
}

impl FramePhaseReport {
    /// Reports independent pre-surface-work timing.
    #[must_use]
    pub fn pre_surface_work(frame_id: FrameId, start: Time, end: Time) -> (r: Self)
        ensures
            r@ == (PhaseReportModel { frame_id, phase: Phase::Frame, start, end }),
    {
        Self { frame_id, phase: Phase::Frame, start, end }
    }

    /// Reports surface-bound CPU work timing.
    #[must_use]
    pub fn surface_work(frame_id: FrameId, start: Time, end: Time) -> (r: Self)
        ensures
            r@ == (PhaseReportModel { frame_id, phase: Phase::Surface, start, end }),
    {
        Self { frame_id, phase: Phase::Surface, start, end }
    }

    /// Reports GPU work timing.
    #[must_use]
    pub fn gpu_work(frame_id: FrameId, start: Time, end: Time) -> (r: Self)
        ensures
            r@ == (PhaseReportModel { frame_id, phase: Phase::Gpu, start, end }),
    {
        Self { frame_id, phase: Phase::Gpu, start, end }
    }
}

/// How far the active frame has come.
#[derive(Clone, Copy, Debug, PartialEq, Eq, Structural)]
pub enum FrameState {
    /// No frame is active.
    Idle,
    /// The frame waits for its pre-surface work to start.
    Planned(FramePlan),
    /// Pre-surface work is under way.
    PreSurfaceWorkStarted(FramePlan),
    /// Pre-surface work is complete, and the frame waits for its surface.
    PreSurfaceWorkDone(FramePlan),
    /// Surface-bound work is under way.
    SurfaceAcquired(FramePlan),
    /// Surface-bound work is complete, and the frame can be presented.
    SurfaceWorkDone(FramePlan),
}

impl FrameState {
    /// The plan of the active frame.
    pub open spec fn active_plan(self) -> Option<FramePlan> {
        match self {
            FrameState::Idle => None,
            FrameState::Planned(plan) => Some(plan),
            FrameState::PreSurfaceWorkStarted(plan) => Some(plan),
            FrameState::PreSurfaceWorkDone(plan) => Some(plan),
            FrameState::SurfaceAcquired(plan) => Some(plan),
            FrameState::SurfaceWorkDone(plan) => Some(plan),
        }
    }
}

/// The estimate after an observation, in nanoseconds: a slower observation is taken at once, and
/// a faster one moves the estimate by an eighth of the way.
pub open spec fn smoothed(previous: int, observed: int) -> int {
    if observed >= previous {
        observed
    } else {
        time::sat_duration(7 * previous + observed) / 8
    }
}

/// `estimate` after a phase took `observed` nanoseconds.
pub open spec fn updated_estimate(
    estimate: FrameTimingEstimate,
    phase: Phase,
    observed: int,
) -> FrameTimingEstimate {
    match phase {
        Phase::Frame => FrameTimingEstimate {
            pre_surface_work: Duration(
                smoothed(estimate.pre_surface_work.0 as int, observed) as u64,
            ),
            ..estimate
        },
        Phase::Surface => FrameTimingEstimate {
            surface_work: Duration(smoothed(estimate.surface_work.0 as int, observed) as u64),
            ..estimate
        },
        Phase::Gpu => FrameTimingEstimate {
            gpu_work: Duration(smoothed(estimate.gpu_work.0 as int, observed) as u64),
            ..estimate
        },
    }
}

/// The state of a [`FramePacer`].
pub struct PacerModel {
    /// The display.
    pub display: DisplayModel,
    /// The estimated work.
    pub estimate: FrameTimingEstimate,
    /// The number of the next frame.
    pub next_frame_id: u64,
    /// When a frame was last presented.
    pub last_present_time: Option<Time>,
    /// Demand that no frame has taken up yet.
    pub pending_demand: FrameDemand,
    /// The active frame.
    pub state: FrameState,
}

impl PacerModel {
    /// The state of a new pacer for `display`.
    pub open spec fn initial(display: DisplayModel, estimate: FrameTimingEstimate) -> Self {
        PacerModel {
            display,
            estimate,
            next_frame_id: 1,
            last_present_time: None,
            pending_demand: FrameDemand(0),
            state: FrameState::Idle,
        }
    }

    /// What holds of every reachable state: the display is valid, and the active frame was
    /// numbered before the next one, has a cause, and has its phases in order.
    pub open spec fn wf(self) -> bool {
        &&& self.display.wf()
        &&& self.next_frame_id >= 1
        &&& self.state.active_plan() matches Some(plan) ==> {
            &&& 1 <= plan.id.number() <= self.next_frame_id
            &&& plan.id.number() == self.next_frame_id ==> self.next_frame_id == u64::MAX
            &&& plan.demand.0 != 0
            &&& plan.pre_surface_work_start.0 <= plan.acquire_surface_at.0
                <= plan.submit_deadline.0 <= plan.target_present_time.0
        }
    }

    /// The identifier of the active frame.
    pub open spec fn active_id(self) -> Option<FrameId> {
        match self.state.active_plan() {
            Some(plan) => Some(plan.id),
            None => None,
        }
    }

    /// The state after a frame was requested.
    pub open spec fn after_request(self, demand: FrameDemand) -> Self {
        PacerModel { pending_demand: self.pending_demand.joined(demand), ..self }
    }

    /// The state after frames were requested, one after the other.
    pub open spec fn after_requests(self, demands: Seq<FrameDemand>) -> Self
        decreases demands.len(),
    {
        if demands.len() == 0 {
            self
        } else {
            self.after_requests(demands.drop_last()).after_request(demands.last())
        }
    }

    /// The state after the active frame was dropped.
    pub open spec fn after_drop(self) -> Self {
        PacerModel { state: FrameState::Idle, ..self }
    }

    /// A new frame is planned when the pacer is next asked.
    pub open spec fn plans(self) -> bool {
        self.state is Idle && self.pending_demand.0 != 0
    }

    /// What a frame planned at `now` depends on.
    pub open spec fn plan_input(self, now: Time) -> PlanInput {
        PlanInput {
            display: self.display,
            estimate: self.estimate,
            demand: self.pending_demand,
            opportunity: FrameOpportunity {
                now,
                predicted_present_time: None,
                frame_interval: None,
                last_present_time: self.last_present_time,
                pending_target_present_time: None,
            },
        }
    }

    /// The frame planned at `now`.
    pub open spec fn planned_frame(self, now: Time) -> FramePlan {
        let input = self.plan_input(now);
        let estimate = self.estimate;
        FramePlan {
            id: FrameId::numbered(self.next_frame_id),
            demand: self.pending_demand,
            target_present_time: Time(input.target() as i64),
            frame_interval: Duration(input.selected_interval() as u64),
            pre_surface_work_start: Time(
                time::time_before(input.target(), estimate.total_nanos()) as i64,
            ),
            acquire_surface_at: Time(
                time::time_before(input.target(), estimate.ready_nanos()) as i64,
            ),
            submit_deadline: Time(
                time::time_before(input.target(), estimate.gpu_work.0 as int) as i64,
            ),
        }
    }

    /// The state once a frame is planned at `now`, where one has to be.
    pub open spec fn with_plan(self, now: Time) -> Self {
        if self.plans() {
            PacerModel {
                next_frame_id: begin_frame::next_number(self.next_frame_id),
                pending_demand: FrameDemand(0),
                state: FrameState::Planned(self.planned_frame(now)),
                ..self
            }
        } else {
            self
        }
    }

    /// The present instruction for a finished frame.
    pub open spec fn presentation_for(self, plan: FramePlan) -> Presentation {
        let policy = plan.demand.pressing_policy();
        if policy == DemandPolicy::Input || policy == DemandPolicy::ContinuousInput
            && plan.frame_interval.0 == self.display.min {
            Presentation::AsSoonAsReady
        } else {
            Presentation::AfterMinimumDuration(plan.frame_interval)
        }
    }

    /// The action at `now`.
    pub open spec fn action(self, now: Time) -> Action {
        match self.with_plan(now).state {
            FrameState::Planned(plan) => if now.0 < plan.pre_surface_work_start.0 {
                Action::SleepUntil(plan.pre_surface_work_start)
            } else {
                Action::StartPreSurfaceWork(plan)
            },
            FrameState::PreSurfaceWorkDone(plan) => if now.0 < plan.acquire_surface_at.0 {
                Action::SleepUntil(plan.acquire_surface_at)
            } else {
                Action::AcquireSurface(plan)
            },
            FrameState::SurfaceWorkDone(plan) => Action::Present {
                plan,
                presentation: self.presentation_for(plan),
            },
            FrameState::Idle
            | FrameState::PreSurfaceWorkStarted(_)
            | FrameState::SurfaceAcquired(_) => Action::Idle,
        }
    }

    /// The state after the action at `now` was handed out.
    pub open spec fn after_action(self, now: Time) -> Self {
        let planned = self.with_plan(now);
        match self.action(now) {
            Action::StartPreSurfaceWork(plan) => PacerModel {
                state: FrameState::PreSurfaceWorkStarted(plan),
                ..planned
            },
            Action::AcquireSurface(plan) => PacerModel {
                state: FrameState::SurfaceAcquired(plan),
                ..planned
            },
            _ => planned,
        }
    }

    /// The state after a phase was reported: the estimate is updated, and the frame moves on where
    /// it was waiting for that phase. Reports about other frames change nothing.
    pub open spec fn after_report(self, report: PhaseReportModel) -> Self {
        if self.active_id() != Some(report.frame_id) {
            self
        } else {
            PacerModel {
                estimate: updated_estimate(self.estimate, report.phase, report.observed()),
                state: match (report.phase, self.state) {
                    (Phase::Frame, FrameState::PreSurfaceWorkStarted(plan)) =>
                        FrameState::PreSurfaceWorkDone(plan),
                    (Phase::Surface, FrameState::SurfaceAcquired(plan)) =>
                        FrameState::SurfaceWorkDone(plan),
                    _ => self.state,
                },
                ..self
            }
        }
    }

    /// The state after a frame was presented. Other frames than the active one change nothing.
    pub open spec fn after_presented(self, frame_id: FrameId, presented_at: Time) -> Self {
        if self.active_id() != Some(frame_id) {
            self
        } else {
            PacerModel {
                last_present_time: Some(presented_at),
                state: FrameState::Idle,
                ..self
            }
        }
    }
}

/// A platform-independent frame scheduler.
#[derive(Debug)]
pub struct FramePacer {
    display: DisplayTiming,
    estimate: FrameTimingEstimate,
    next_frame_id: u64,
    last_present_time: Option<Time>,
    pending_demand: FrameDemand,
    state: FrameState,
}

impl View for FramePacer {
    type V = PacerModel;

    closed spec fn view(&self) -> PacerModel {
        PacerModel {
            display: self.display@,
            estimate: self.estimate,
            next_frame_id: self.next_frame_id,
            last_present_time: self.last_present_time,
            pending_demand: self.pending_demand,
            state: self.state,
        }
    }
}

impl Clone for FramePacer {
    fn clone(&self) -> (r: Self)
        ensures
            r == *self,
    {
        Self {
            display: self.display,
            estimate: self.estimate,
            next_frame_id: self.next_frame_id,
            last_present_time: self.last_present_time,
            pending_demand: self.pending_demand,
            state: self.state,
        }
    }
}

impl FramePacer {
    /// Creates a frame pacer for a display.
    #[must_use]
    pub fn new(display: DisplayTiming) -> (r: Self)
        ensures
            r@ == PacerModel::initial(display@, r@.estimate),
            r@.estimate.pre_surface_work.0 == 2_000_000,
            r@.estimate.surface_work.0 == 2_000_000,
            r@.estimate.gpu_work.0 == 4_000_000,
            r@.estimate.safety_margin.0 == 1_000_000,
            display@.wf() ==> r@.wf(),
    {
        Self {
            display,
            estimate: FrameTimingEstimate::default(),
            next_frame_id: 1,
            last_present_time: None,
            pending_demand: FrameDemand::none(),
            state: FrameState::Idle,
        }
    }

    /// Updates the display timing model.
    pub fn set_display_timing(&mut self, display: DisplayTiming)
        ensures
            final(self)@ == (PacerModel { display: display@, ..old(self)@ }),
            old(self)@.wf() && display@.wf() ==> final(self)@.wf(),
    {
        self.display = display;
    }

    /// Updates the current work estimate.
    pub fn set_estimate(&mut self, estimate: FrameTimingEstimate)
        ensures
            final(self)@ == (PacerModel { estimate, ..old(self)@ }),
            old(self)@.wf() ==> final(self)@.wf(),
    {
        self.estimate = estimate;
    }

    /// Returns the current work estimate.
    #[must_use]
    pub fn estimate(&self) -> (r: FrameTimingEstimate)
        ensures
            r == self@.estimate,
    {
        self.estimate
    }

    /// Requests a frame.
    ///
    /// Multiple requests coalesce, with input taking priority over animation and animation taking
    /// priority over background work.
    pub fn request_frame(&mut self, demand: FrameDemand, _now: Time)
        ensures
            final(self)@ == old(self)@.after_request(demand),
            old(self)@.wf() ==> final(self)@.wf(),
    {
        self.pending_demand.insert(demand);
    }

    /// Returns the next scheduler action for `now`.
    ///
    /// Where this plans a new frame, there must be a slot to plan it for, as
    /// [`plan_frame`](crate::plan::plan_frame) says.
    #[must_use]
    pub fn next_action(&mut self, now: Time) -> (r: Action)
        requires
            old(self)@.plans() ==> old(self)@.plan_input(now).has_slot(),
        ensures
            r == old(self)@.action(now),
            final(self)@ == old(self)@.after_action(now),
            old(self)@.wf() ==> final(self)@.wf(),
            r matches Action::SleepUntil(wake) ==> {
                &&& now.0 < wake.0
                &&& !final(self)@.plans()
                &&& final(self)@.action(wake) is StartPreSurfaceWork || final(self)@.action(
                    wake,
                ) is AcquireSurface
            },
            r matches Action::StartPreSurfaceWork(plan) ==> now.0 >= plan.pre_surface_work_start.0,
            r matches Action::AcquireSurface(plan) ==> now.0 >= plan.acquire_surface_at.0,
            old(self)@.active_id() is None && old(self)@.pending_demand.0 == 0 ==> r
                == Action::Idle,
    {
        match self.state {
            FrameState::Idle => {
                if self.pending_demand.is_empty() {
                    return Action::Idle;
                }
                let plan = self.plan_next_frame(now);
                self.pending_demand = FrameDemand::none();
                self.state = FrameState::Planned(plan);
                proof {
                    if old(self)@.wf() {
                        plan::law_phases_are_ordered(old(self)@.plan_input(now));
                    }
                }
                self.action_for_planned(plan, now)
            },
            FrameState::Planned(plan) => self.action_for_planned(plan, now),
            FrameState::PreSurfaceWorkStarted(_) => Action::Idle,
            FrameState::PreSurfaceWorkDone(plan) => {
                if now < plan.acquire_surface_at {
                    Action::SleepUntil(plan.acquire_surface_at)
                } else {
                    self.state = FrameState::SurfaceAcquired(plan);
                    Action::AcquireSurface(plan)
                }
            },
            FrameState::SurfaceAcquired(_) => Action::Idle,
            FrameState::SurfaceWorkDone(plan) => Action::Present {
                plan,
                presentation: self.presentation_for(plan),
            },
        }
    }

    fn action_for_planned(&mut self, plan: FramePlan, now: Time) -> (r: Action)
        requires
            old(self)@.state == FrameState::Planned(plan),
        ensures
            r == old(self)@.action(now),
            final(self)@ == old(self)@.after_action(now),
    {
        if now < plan.pre_surface_work_start {
            Action::SleepUntil(plan.pre_surface_work_start)
        } else {
            self.state = FrameState::PreSurfaceWorkStarted(plan);
            Action::StartPreSurfaceWork(plan)
        }
    }

    fn plan_next_frame(&mut self, now: Time) -> (r: FramePlan)
        requires
            old(self)@.plan_input(now).has_slot(),
        ensures
            r == old(self)@.planned_frame(now),
            final(self)@ == (PacerModel {
                next_frame_id: begin_frame::next_number(old(self)@.next_frame_id),
                ..old(self)@
            }),
    {
        let demand = self.pending_demand;
        let decision = plan_frame(
            self.display,
            self.estimate,
            demand,
            FrameOpportunity {
                now,
                predicted_present_time: None,
                frame_interval: None,
                last_present_time: self.last_present_time,
                pending_target_present_time: None,
            },
        );
        let id = FrameId(self.next_frame_id);
        self.next_frame_id = self.next_frame_id.saturating_add(1);
        FramePlan {
            id,
            demand,
            target_present_time: decision.target_present_time,
            frame_interval: decision.frame_interval,
            pre_surface_work_start: decision.pre_surface_work_start,
            acquire_surface_at: decision.acquire_surface_at,
            submit_deadline: decision.submit_deadline,
        }
    }

    fn presentation_for(&self, plan: FramePlan) -> (r: Presentation)
        ensures
            r == self@.presentation_for(plan),
    {
        match plan.demand.policy() {
            DemandPolicy::Input => Presentation::AsSoonAsReady,
            DemandPolicy::ContinuousInput => if plan.frame_interval == self.display.min_interval() {
                Presentation::AsSoonAsReady
            } else {
                Presentation::AfterMinimumDuration(plan.frame_interval)
            },
            DemandPolicy::Animation
            | DemandPolicy::Background
            | DemandPolicy::NoCause => Presentation::AfterMinimumDuration(plan.frame_interval),
        }
    }

    /// Reports that a scheduled phase completed.
    ///
    /// Reports for stale frame ids are ignored. Duration estimates react immediately to slower
    /// observations and decay slowly after faster ones. Underestimating frame work causes missed
    /// deadlines; overestimating by a small amount only starts work slightly earlier.
    pub fn report_phase(&mut self, report: FramePhaseReport)
        ensures
            final(self)@ == old(self)@.after_report(report@),
            old(self)@.wf() ==> final(self)@.wf(),
    {
        match self.active_frame_id() {
            Some(active) => if active != report.frame_id {
                return;
            },
            None => {
                return;
            },
        }
        let observed = report.end - report.start;
        match report.phase {
            Phase::Frame => {
                self.estimate.pre_surface_work = smooth_duration(
                    self.estimate.pre_surface_work,
                    observed,
                );
                if let FrameState::PreSurfaceWorkStarted(plan) = self.state {
                    self.state = FrameState::PreSurfaceWorkDone(plan);
                }
            },
            Phase::Surface => {
                self.estimate.surface_work = smooth_duration(self.estimate.surface_work, observed);
                if let FrameState::SurfaceAcquired(plan) = self.state {
                    self.state = FrameState::SurfaceWorkDone(plan);
                }
            },
            Phase::Gpu => {
                self.estimate.gpu_work = smooth_duration(self.estimate.gpu_work, observed);
            },
        }
    }

    /// Reports that a frame was presented.
    pub fn report_presented(&mut self, frame_id: FrameId, presented_at: Time)
        ensures
            final(self)@ == old(self)@.after_presented(frame_id, presented_at),
            old(self)@.wf() ==> final(self)@.wf(),
    {
        match self.active_frame_id() {
            Some(active) => if active != frame_id {
                return;
            },
            None => {
                return;
            },
        }
        self.last_present_time = Some(presented_at);
        self.state = FrameState::Idle;
    }

    /// Drops the active frame and returns to idle.
    pub fn drop_active_frame(&mut self)
        ensures
            final(self)@ == old(self)@.after_drop(),
            old(self)@.wf() ==> final(self)@.wf(),
    {
        self.state = FrameState::Idle;
    }

    /// Returns the active frame id, if any.
    #[must_use]
    pub fn active_frame_id(&self) -> (r: Option<FrameId>)
        ensures
            r == self@.active_id(),
    {
        match self.state {
            FrameState::Idle => None,
            FrameState::Planned(plan) => Some(plan.id),
            FrameState::PreSurfaceWorkStarted(plan) => Some(plan.id),
            FrameState::PreSurfaceWorkDone(plan) => Some(plan.id),
            FrameState::SurfaceAcquired(plan) => Some(plan.id),
            FrameState::SurfaceWorkDone(plan) => Some(plan.id),
        }
    }
}

/// The estimate `previous` after an observation.
fn smooth_duration(previous: Duration, observed: Duration) -> (r: Duration)
    ensures
        r.0 == smoothed(previous.0 as int, observed.0 as int),
{
    if observed >= previous {
        return observed;
    }
    let weighted: u64 = match previous.0.checked_mul(7) {
        Some(weighted) => weighted,
        None => u64::MAX,
    };
    Duration(weighted.saturating_add(observed.0) / 8)
}

/// A host told to sleep wakes up to work. Asked again before the wake time it is told the
/// same, and nothing changes; asked at that time or later it gets the action it slept for.
pub proof fn law_sleeping_leads_to_the_action(
    state: PacerModel,
    now: Time,
    wake: Time,
    later: Time,
)
    requires
        state.action(now) == Action::SleepUntil(wake),
    ensures
        now.0 < wake.0,
        later.0 < wake.0 ==> state.after_action(now).action(later) == Action::SleepUntil(wake)
            && state.after_action(now).after_action(later) == state.after_action(now),
        later.0 >= wake.0 ==> match state.after_action(now).action(later) {
            Action::StartPreSurfaceWork(plan) => plan.pre_surface_work_start == wake,
            Action::AcquireSurface(plan) => plan.acquire_surface_at == wake,
            _ => false,
        },
{
}

/// Work is never handed out early. Pre-surface work starts at or after its planned start, and
/// the surface is acquired at or after its planned time.
pub proof fn law_work_starts_on_time(state: PacerModel, now: Time)
    ensures
        match state.action(now) {
            Action::StartPreSurfaceWork(plan) => now.0 >= plan.pre_surface_work_start.0,
            Action::AcquireSurface(plan) => now.0 >= plan.acquire_surface_at.0,
            _ => true,
        },
{
}

/// A newly planned frame can be met. Its target is no earlier than its estimated work takes
/// from now, its phases are in order, and its work is not planned to start in the past unless the
/// end of the time range cuts it off.
pub proof fn law_planned_frames_can_be_met(state: PacerModel, now: Time)
    requires
        state.wf(),
        state.plans(),
        state.plan_input(now).has_slot(),
    ensures
        ({
            let plan = state.planned_frame(now);
            &&& plan.target_present_time.0 >= time::time_after(
                now.0 as int,
                state.estimate.total_nanos(),
            )
            &&& plan.pre_surface_work_start.0 <= plan.acquire_surface_at.0
                <= plan.submit_deadline.0 <= plan.target_present_time.0
            &&& now.0 + state.estimate.total_nanos() <= i64::MAX ==> plan.pre_surface_work_start.0
                >= now.0
        }),
{
    plan::law_phases_are_ordered(state.plan_input(now));
    plan::law_target_can_be_met(state.plan_input(now));
}

/// While the host works on a phase there is nothing else to do: until that phase is reported,
/// asking again changes nothing.
pub proof fn law_phases_are_awaited(state: PacerModel, now: Time)
    requires
        state.state is PreSurfaceWorkStarted || state.state is SurfaceAcquired,
    ensures
        state.action(now) == Action::Idle,
        state.after_action(now) == state,
{
}

/// Once surface work is reported complete the frame is presented at once, whatever the time,
/// and until it is presented or dropped the pacer keeps saying so.
pub proof fn law_finished_frames_present_at_once(
    state: PacerModel,
    plan: FramePlan,
    report: PhaseReportModel,
    now: Time,
)
    requires
        state.state == FrameState::SurfaceAcquired(plan),
        report.frame_id == plan.id,
        report.phase == Phase::Surface,
    ensures
        ({
            let done = state.after_report(report);
            &&& done.action(now) == (Action::Present {
                plan,
                presentation: state.presentation_for(plan),
            })
            &&& done.after_action(now) == done
        }),
{
}

/// Reports about any frame but the active one are ignored.
pub proof fn law_stale_reports_are_ignored(
    state: PacerModel,
    report: PhaseReportModel,
    presented_at: Time,
)
    requires
        state.active_id() != Some(report.frame_id),
    ensures
        state.after_report(report) == state,
        state.after_presented(report.frame_id, presented_at) == state,
{
}

/// Estimates react immediately to slower observations and decay slowly after faster ones. A
/// slower observation becomes the estimate. A faster one lowers it, by no more than an eighth of
/// the difference, rounded up, and so not below what was observed; only where the weighted sum
/// does not fit a duration can it fall further.
pub proof fn law_estimates_rise_at_once_and_decay_slowly(previous: u64, observed: u64)
    ensures
        observed >= previous ==> smoothed(previous as int, observed as int) == observed,
        observed < previous ==> smoothed(previous as int, observed as int) < previous,
        observed < previous && (7 * previous + observed <= u64::MAX || 8 * observed <= u64::MAX)
            ==> observed <= smoothed(previous as int, observed as int),
        observed < previous && 7 * previous + observed <= u64::MAX ==> 8 * (previous - smoothed(
            previous as int,
            observed as int,
        )) < previous - observed + 8,
{
}

/// Every newly planned frame gets a number that no earlier frame had, until the numbers run
/// out.
pub proof fn law_frame_ids_are_fresh(state: PacerModel, now: Time)
    requires
        state.wf(),
        state.plans(),
        state.next_frame_id < u64::MAX,
    ensures
        state.after_action(now).active_id() == Some(FrameId::numbered(state.next_frame_id)),
        state.planned_frame(now).id.number() == state.next_frame_id,
        state.after_action(now).next_frame_id == state.next_frame_id + 1,
{
}

/// With no active frame and nothing requested there is nothing to do, and asking changes nothing.
pub proof fn law_idle_pacer_stays_idle(state: PacerModel, now: Time)
    requires
        state.active_id() is None,
        state.pending_demand.0 == 0,
    ensures
        state.action(now) == Action::Idle,
        state.after_action(now) == state,
{
}

/// Requests coalesce. Any number of them leaves the active frame and the estimate alone and adds
/// the demand of all of them to what was requested before; so the next planned frame serves
/// exactly what was requested since the last one was planned, in whatever order.
pub proof fn law_requests_coalesce(state: PacerModel, demands: Seq<FrameDemand>, now: Time)
    ensures
        ({
            let later = state.after_requests(demands);
            &&& later == PacerModel {
                pending_demand: state.pending_demand.joined(demand::joined_all(demands)),
                ..state
            }
            &&& later.active_id() == state.active_id()
            &&& later.plans() ==> later.planned_frame(now).demand == later.pending_demand
            &&& later.plans() ==> later.after_action(now).pending_demand.0 == 0
        }),
    decreases demands.len(),
{
    let requested = state.pending_demand;
    if demands.len() > 0 {
        let (fewer, last) = (demands.drop_last(), demands.last());
        law_requests_coalesce(state, fewer, now);
        demand::law_joined_is_union(requested, demand::joined_all(fewer), last);
    } else {
        let x = requested.0;
        assert(x | 0 == x) by (bit_vector);
    }
}

/// A frame takes up what was requested before it was planned and nothing else: what is requested
/// while it is active is served by the frame that is planned after it is presented or dropped.
pub proof fn law_later_requests_are_served_by_the_next_frame(
    state: PacerModel,
    now: Time,
    demands: Seq<FrameDemand>,
    presented_at: Time,
    later: Time,
)
    requires
        state.plans(),
        demand::joined_all(demands).0 != 0,
    ensures
        ({
            let busy = state.after_action(now).after_requests(demands);
            let presented = busy.after_presented(state.planned_frame(now).id, presented_at);
            &&& busy.state.active_plan() == Some(state.planned_frame(now))
            &&& presented.plans()
            &&& presented.planned_frame(later).demand == demand::joined_all(demands)
            &&& busy.after_drop().plans()
            &&& busy.after_drop().planned_frame(later).demand == demand::joined_all(demands)
        }),
{
    law_requests_coalesce(state.after_action(now), demands, later);
    let x = demand::joined_all(demands).0;
    assert(0u8 | x == x) by (bit_vector);
}

/// A presented frame is over. The pacer has no active frame and keeps its estimate, and it is idle
/// exactly when nothing was requested since that frame was planned.
pub proof fn law_presented_frames_are_over(
    state: PacerModel,
    plan: FramePlan,
    presented_at: Time,
    now: Time,
)
    requires
        state.state.active_plan() == Some(plan),
    ensures
        ({
            let over = state.after_presented(plan.id, presented_at);
            &&& over.active_id() is None
            &&& over.estimate == state.estimate
            &&& over.last_present_time == Some(presented_at)
            &&& over.action(now) == Action::Idle <==> state.pending_demand.0 == 0
            &&& state.pending_demand.0 == 0 ==> over.after_action(now) == over
        }),
{
}

/// A dropped frame is over too. What was requested since it was planned is kept, its own demand is
/// not requested again, and the next frame has a larger number, until the numbers run out.
pub proof fn law_dropped_frames_are_over(state: PacerModel, plan: FramePlan, now: Time)
    requires
        state.wf(),
        state.state.active_plan() == Some(plan),
    ensures
        ({
            let over = state.after_drop();
            &&& over.active_id() is None
            &&& over.estimate == state.estimate
            &&& over.pending_demand == state.pending_demand
            &&& over.action(now) == Action::Idle <==> state.pending_demand.0 == 0
            &&& over.plans() && plan.id.number() < u64::MAX ==> over.planned_frame(
                now,
            ).id.number() > plan.id.number()
        }),
{
}

/// A frame is planned for its own demand. Its target, interval and phase times are those of the
/// stateless decision for exactly what was requested, at the time of asking, with the pacer's
/// display and estimate and no platform prediction. So one-shot input is shown as soon as the
/// display's fastest interval has passed and the work is done, and never later.
pub proof fn law_frames_are_planned_for_their_own_demand(state: PacerModel, now: Time)
    requires
        state.wf(),
        state.plans(),
        state.plan_input(now).has_slot(),
    ensures
        ({
            let input = PlanInput {
                display: state.display,
                estimate: state.estimate,
                demand: state.pending_demand,
                opportunity: FrameOpportunity {
                    now,
                    predicted_present_time: None,
                    frame_interval: None,
                    last_present_time: state.last_present_time,
                    pending_target_present_time: None,
                },
            };
            let plan = state.planned_frame(now);
            let work = state.estimate.total_nanos();
            &&& state.after_action(now).state.active_plan() == Some(plan)
            &&& plan.demand == state.pending_demand
            &&& plan.id.number() == state.next_frame_id
            &&& plan.target_present_time.0 == input.target()
            &&& plan.frame_interval.0 == input.selected_interval()
            &&& plan.pre_surface_work_start.0 == time::time_before(input.target(), work)
            &&& plan.acquire_surface_at.0 == time::time_before(
                input.target(),
                state.estimate.ready_nanos(),
            )
            &&& plan.submit_deadline.0 == time::time_before(
                input.target(),
                state.estimate.gpu_work.0 as int,
            )
            &&& state.pending_demand.0 & 2 == 2 ==> {
                &&& plan.frame_interval.0 == state.display.min
                &&& plan.target_present_time.0 >= time::time_after(now.0 as int, state.display.min)
                &&& plan.target_present_time.0 >= time::time_after(now.0 as int, work)
                &&& plan.target_present_time.0 == time::time_after(now.0 as int, state.display.min)
                    || plan.target_present_time.0 == time::time_after(now.0 as int, work)
            }
        }),
{
    let input = state.plan_input(now);
    plan::law_target_can_be_met(input);
    plan::law_phases_are_ordered(input);
    plan::law_decision_fits_its_types(input);
    demand::law_policy_follows_the_most_urgent_cause(state.pending_demand);
}

/// Handing out a frame moves it on, once and with the plan it started with: from its start on a
/// planned frame is handed out for pre-surface work and then waits for that; and once that is done,
/// from the time for its surface on, it is handed out for surface work and then waits for that.
/// Nothing else changes.
pub proof fn law_handed_out_frames_move_on(state: PacerModel, plan: FramePlan, now: Time)
    ensures
        state.state == FrameState::Planned(plan) && now.0 >= plan.pre_surface_work_start.0 ==> {
            &&& state.action(now) == Action::StartPreSurfaceWork(plan)
            &&& state.after_action(now) == (PacerModel {
                state: FrameState::PreSurfaceWorkStarted(plan),
                ..state
            })
        },
        state.state == FrameState::PreSurfaceWorkDone(plan) && now.0 >= plan.acquire_surface_at.0
            ==> {
            &&& state.action(now) == Action::AcquireSurface(plan)
            &&& state.after_action(now) == (PacerModel {
                state: FrameState::SurfaceAcquired(plan),
                ..state
            })
        },
        state.state == FrameState::SurfaceWorkDone(plan) ==> {
            &&& state.action(now) is Present
            &&& state.action(now).carried_plan() == Some(plan)
            &&& state.after_action(now) == state
        },
{
}

/// Asking a pacer without a frame plans one: it becomes active at once, takes up everything that
/// was requested, and is either handed out or slept for. Display, estimate and last presentation
/// stay as they are.
pub proof fn law_asking_plans_a_frame(state: PacerModel, now: Time)
    requires
        state.state is Idle,
        state.pending_demand.0 != 0,
    ensures
        ({
            let (plan, after) = (state.planned_frame(now), state.after_action(now));
            let waits = now.0 < plan.pre_surface_work_start.0;
            &&& waits ==> state.action(now) == Action::SleepUntil(plan.pre_surface_work_start)
            &&& waits ==> after.state == FrameState::Planned(plan)
            &&& !waits ==> state.action(now) == Action::StartPreSurfaceWork(plan)
            &&& !waits ==> after.state == FrameState::PreSurfaceWorkStarted(plan)
            &&& after.pending_demand.0 == 0
            &&& after.display == state.display
            &&& after.estimate == state.estimate
            &&& after.last_present_time == state.last_present_time
        }),
{
}

/// Until its time has come a frame sleeps, first for its own start and then for its surface.
pub proof fn law_frames_sleep_until_their_time(state: PacerModel, plan: FramePlan, now: Time)
    ensures
        state.state == FrameState::Planned(plan) && now.0 < plan.pre_surface_work_start.0
            ==> state.action(now) == Action::SleepUntil(plan.pre_surface_work_start)
            && state.after_action(now) == state,
        state.state == FrameState::PreSurfaceWorkDone(plan) && now.0 < plan.acquire_surface_at.0
            ==> state.action(now) == Action::SleepUntil(plan.acquire_surface_at)
            && state.after_action(now) == state,
{
}

/// Only the report that a frame waits for moves it on: a second report of a phase, a report of the
/// other phase and one of GPU work leave it where it is. No report changes what was requested or
/// presented.
pub proof fn law_only_the_awaited_report_moves_a_frame(state: PacerModel, report: PhaseReportModel)
    ensures
        ({
            let after = state.after_report(report);
            let awaited = match state.state {
                FrameState::PreSurfaceWorkStarted(plan) => plan.id == report.frame_id
                    && report.phase == Phase::Frame,
                FrameState::SurfaceAcquired(plan) => plan.id == report.frame_id && report.phase
                    == Phase::Surface,
                _ => false,
            };
            &&& !awaited ==> after.state == state.state
            &&& awaited ==> match state.state {
                FrameState::PreSurfaceWorkStarted(plan) => after.state
                    == FrameState::PreSurfaceWorkDone(plan),
                FrameState::SurfaceAcquired(plan) => after.state == FrameState::SurfaceWorkDone(
                    plan,
                ),
                _ => false,
            }
            &&& after.pending_demand == state.pending_demand
            &&& after.last_present_time == state.last_present_time
            &&& after.next_frame_id == state.next_frame_id
            &&& after.display == state.display
        }),
{
}

/// A report about the active frame updates the estimate of its own phase and no other, with the
/// time from its start to its end: a phase that took at least as long as estimated becomes the
/// estimate, and a faster one moves it an eighth of the way there, rounded down.
pub proof fn law_reports_update_their_own_estimate(state: PacerModel, report: PhaseReportModel)
    requires
        state.active_id() == Some(report.frame_id),
        report.start.0 <= report.end.0 <= report.start.0 + i64::MAX,
    ensures
        ({
            let (before, after) = (state.estimate, state.after_report(report).estimate);
            let took = report.end.0 - report.start.0;
            let (old_value, new_value) = match report.phase {
                Phase::Frame => (before.pre_surface_work.0, after.pre_surface_work.0),
                Phase::Surface => (before.surface_work.0, after.surface_work.0),
                Phase::Gpu => (before.gpu_work.0, after.gpu_work.0),
            };
            &&& took >= old_value ==> new_value == took
            &&& took < old_value && 7 * old_value + took <= u64::MAX ==> 8 * new_value <= 7
                * old_value + took < 8 * new_value + 8
            &&& took < old_value && 7 * old_value + took > u64::MAX ==> new_value == u64::MAX / 8
            &&& report.phase != Phase::Frame ==> after.pre_surface_work == before.pre_surface_work
            &&& report.phase != Phase::Surface ==> after.surface_work == before.surface_work
            &&& report.phase != Phase::Gpu ==> after.gpu_work == before.gpu_work
            &&& after.safety_margin == before.safety_margin
        }),
{
}

/// A phase that is reported to end before it started took no time.
pub proof fn law_reversed_reports_took_no_time(report: PhaseReportModel)
    requires
        report.end.0 <= report.start.0,
    ensures
        report.observed() == 0,
{
}

/// How a finished frame is presented follows its demand: one-shot input as soon as it is ready, and
/// continuous input too as long as it kept up with the display's fastest interval; everything else
/// stays on screen for its frame interval.
pub proof fn law_presentation_follows_the_demand(state: PacerModel, plan: FramePlan, now: Time)
    requires
        state.state == FrameState::SurfaceWorkDone(plan),
    ensures
        ({
            let at_once = plan.demand.0 & 2 == 2 || plan.demand.0 & 4 == 4
                && plan.frame_interval.0 == state.display.min;
            state.action(now) == (Action::Present {
                plan,
                presentation: if at_once {
                    Presentation::AsSoonAsReady
                } else {
                    Presentation::AfterMinimumDuration(plan.frame_interval)
                },
            })
        }),
{
    let x = plan.demand.0;
    assert(x & 2 != 2 ==> (x & 6 == 4 <==> x & 4 == 4)) by (bit_vector);
    demand::law_policy_follows_the_most_urgent_cause(plan.demand);
}

/// What ends a frame: presenting or dropping it leaves the pacer without one and touches neither
/// what was requested nor the numbering. A new pacer has no frame, no demand and starts numbering
/// at one.
pub proof fn law_frames_end_when_presented_or_dropped(
    state: PacerModel,
    plan: FramePlan,
    presented_at: Time,
)
    requires
        state.state.active_plan() == Some(plan),
    ensures
        state.after_presented(plan.id, presented_at) == (PacerModel {
            display: state.display,
            estimate: state.estimate,
            next_frame_id: state.next_frame_id,
            last_present_time: Some(presented_at),
            pending_demand: state.pending_demand,
            state: FrameState::Idle,
        }),
        state.after_drop() == (PacerModel {
            display: state.display,
            estimate: state.estimate,
            next_frame_id: state.next_frame_id,
            last_present_time: state.last_present_time,
            pending_demand: state.pending_demand,
            state: FrameState::Idle,
        }),
        ({
            let fresh = PacerModel::initial(state.display, state.estimate);
            &&& fresh.display == state.display
            &&& fresh.estimate == state.estimate
            &&& fresh.state is Idle
            &&& fresh.pending_demand.0 == 0
            &&& fresh.next_frame_id == 1
            &&& fresh.last_present_time is None
        }),
{
}

/// A frame is the active one from when it is planned until it is presented or dropped, in every
/// state between; and every action that hands out work names the frame it is for.
pub proof fn law_planned_frames_are_active_until_they_end(state: PacerModel, plan: FramePlan)
    ensures
        state.state is Idle <==> state.active_id() is None,
        state.state == FrameState::Planned(plan) || state.state
            == FrameState::PreSurfaceWorkStarted(plan) || state.state
            == FrameState::PreSurfaceWorkDone(plan) || state.state == FrameState::SurfaceAcquired(
            plan,
        ) || state.state == FrameState::SurfaceWorkDone(plan) ==> state.active_id() == Some(plan.id)
            && state.state.active_plan() == Some(plan),
        Action::StartPreSurfaceWork(plan).carried_plan() == Some(plan),
        Action::AcquireSurface(plan).carried_plan() == Some(plan),
        (Action::Present { plan, presentation: Presentation::AsSoonAsReady }).carried_plan()
            == Some(plan),
        Action::Idle.carried_plan() is None,
        Action::SleepUntil(plan.pre_surface_work_start).carried_plan() is None,
{
}

} // verus!
