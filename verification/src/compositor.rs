//! The compositor-frame lifecycle: demand, deadlines, commits and hand-over to the next frame.

use crate::begin_frame::{
    BeginFrame, BeginFrameDeadlineResult, BeginFrameModel, BeginFrameResult, BeginFrameScheduler,
    BeginFrameSchedulerPhase, BeginFrameTiming,
};
use crate::demand::{self, FrameDemand, ANIMATION_BIT};
use crate::time::Time;
use vstd::prelude::*;

verus! {

/// Work visible to the compositor-frame scheduler.
///
/// This is intentionally a snapshot of host state, not scheduler state. The embedding
/// UI/compositor owns facts like dirty style, pending scene jobs, and commit-ready layer changes;
/// the scheduler owns only frame lifecycle.
#[derive(Clone, Copy, Debug, PartialEq, Eq, Structural)]
pub struct CompositorWorkStatus {
    /// The host can produce or commit frames.
    pub can_draw: bool,
    /// There is work that should run at begin-frame time: animation callbacks, style, layout,
    /// paint, scene construction, or compositor-surface pulls.
    pub needs_frame_work: bool,
    /// Scene/render jobs from the active frame are still in flight.
    pub scene_jobs_pending: bool,
    /// There is compositor output ready to commit.
    pub commit_ready: bool,
}

impl CompositorWorkStatus {
    /// The host has something to do or to show.
    pub open spec fn has_work(self) -> bool {
        self.needs_frame_work || self.scene_jobs_pending || self.commit_ready
    }

    /// Output is complete and can be committed.
    pub open spec fn is_ready(self) -> bool {
        self.commit_ready && !self.scene_jobs_pending
    }

    /// Returns true when the scheduler should request frame opportunities.
    #[must_use]
    pub fn needs_frame_source(self) -> (r: bool)
        ensures
            r == (self.can_draw && self.has_work()),
    {
        self.can_draw && (self.needs_frame_work || self.scene_jobs_pending || self.commit_ready)
    }
}

impl Default for CompositorWorkStatus {
    fn default() -> (r: Self)
        ensures
            r == (CompositorWorkStatus {
                can_draw: false,
                needs_frame_work: false,
                scene_jobs_pending: false,
                commit_ready: false,
            }),
    {
        Self {
            can_draw: false,
            needs_frame_work: false,
            scene_jobs_pending: false,
            commit_ready: false,
        }
    }
}

/// Why a compositor commit is requested.
#[derive(Clone, Copy, Debug, PartialEq, Eq, Structural)]
pub enum CompositorCommitReason {
    /// All required render jobs completed before the deadline.
    SceneReady,
    /// The frame deadline fired; commit ready output or old visible state.
    Deadline,
    /// A commit-ready frame was carried into the next scheduler turn.
    ReadyCarry,
}

/// Result of attempting a compositor commit requested by the scheduler.
#[derive(Clone, Copy, Debug, PartialEq, Eq, Structural)]
pub enum CompositorCommitResult {
    /// Output was committed for the active frame.
    Committed,
    /// The host had no ready output to commit.
    NoWork,
    /// The host reached the deadline, but required scene output is still unavailable.
    ///
    /// This keeps the active frame alive. When scene output becomes ready, the scheduler will
    /// request the deadline commit instead of dropping the frame or starting overlapping work.
    ScenePending,
    /// The host could not commit the ready output in the current opportunity.
    ///
    /// This is explicit carry state. Ready output must remain live and the scheduler must keep
    /// requesting frame opportunities instead of letting the host silently drop the publication.
    Rejected,
}

/// A deadline for the active compositor frame.
#[derive(Clone, Copy, Debug, PartialEq, Eq, Structural)]
pub struct CompositorDeadline {
    /// Begin-frame sequence this deadline belongs to.
    pub frame_sequence: u64,
    /// Absolute host-time deadline.
    pub deadline: Time,
}

/// Result of a compositor scheduler event.
#[derive(Clone, Copy, Debug, PartialEq, Eq, Structural)]
pub enum CompositorFrameAction {
    /// No scheduler action is currently needed.
    Idle,
    /// The host should start begin-frame work for this frame.
    StartFrame(BeginFrame),
    /// A begin-frame arrived while another frame was active. The latest one was retained and
    /// should run after the active frame finishes.
    Coalesced {
        /// Active frame still owning the pipeline.
        active: BeginFrame,
        /// Latest pending frame retained by the scheduler.
        pending: BeginFrame,
    },
    /// Arm or replace the active frame deadline.
    ArmDeadline(CompositorDeadline),
    /// Commit compositor output now.
    Commit {
        /// Active frame for the commit.
        frame: BeginFrame,
        /// Reason the commit was requested.
        reason: CompositorCommitReason,
    },
    /// The active frame completed. If `pending` is present, the host should post a task to
    /// process it promptly, matching Chromium's pending/retro BeginFrame behavior.
    FinishFrame {
        /// Latest pending begin-frame retained while the active frame was busy.
        pending: Option<BeginFrame>,
    },
}

/// The state of a [`CompositorFrameScheduler`].
pub struct CompositorModel {
    /// The active frame and the one pending behind it.
    pub begin_frames: BeginFrameModel,
    /// Demand that no frame has taken up yet.
    pub pending_demand: FrameDemand,
    /// The deadline armed for the active frame.
    pub active_deadline: Option<CompositorDeadline>,
    /// The deadline has passed, and its commit waits for the scene.
    pub deadline_waiting_for_scene: bool,
    /// Ready output was refused and must be committed at a later opportunity.
    pub ready_carry: bool,
}

impl CompositorModel {
    /// The state before any event.
    pub open spec fn initial() -> Self {
        CompositorModel {
            begin_frames: BeginFrameModel::initial(),
            pending_demand: FrameDemand(0),
            active_deadline: None,
            deadline_waiting_for_scene: false,
            ready_carry: false,
        }
    }

    /// The active frame.
    pub open spec fn active(self) -> Option<BeginFrame> {
        self.begin_frames.phase.frame()
    }

    /// What holds of every reachable state: the frames are in order, and an armed deadline belongs
    /// to the active frame.
    pub open spec fn wf(self) -> bool {
        &&& self.begin_frames.wf()
        &&& self.active_deadline matches Some(armed) ==> {
            &&& self.active() matches Some(frame)
            &&& frame.sequence == armed.frame_sequence
        }
    }

    /// The host should keep its frame source active.
    pub open spec fn needs_source(self, status: CompositorWorkStatus) -> bool {
        &&& status.can_draw
        &&& {
            ||| self.pending_demand.0 != 0
            ||| self.active() is Some
            ||| self.begin_frames.pending is Some
            ||| self.ready_carry
            ||| status.has_work()
        }
    }

    /// The demand that a new frame would serve: what was requested, and the host's own work, which
    /// counts as animation.
    pub open spec fn demand_with(self, status: CompositorWorkStatus) -> FrameDemand {
        if status.has_work() {
            self.pending_demand.joined(FrameDemand(ANIMATION_BIT))
        } else {
            self.pending_demand
        }
    }

    /// The demand that no started frame has served yet: what was requested, and what the frame that
    /// waits behind the active one stands for.
    pub open spec fn unserved(self) -> FrameDemand {
        match self.begin_frames.pending {
            Some(pending) => self.pending_demand.joined(pending.demand),
            None => self.pending_demand,
        }
    }

    /// The demand of the frame that takes up an opportunity. It replaces the frame that waits
    /// behind the active one, and carries that frame's demand as well.
    pub open spec fn taken_demand(self, status: CompositorWorkStatus) -> FrameDemand {
        match self.begin_frames.pending {
            Some(pending) => self.demand_with(status).joined(pending.demand),
            None => self.demand_with(status),
        }
    }

    /// At this opportunity the active frame should commit its carried or ready output.
    pub open spec fn commits_carry(self, status: CompositorWorkStatus) -> bool {
        &&& self.ready_carry || status.commit_ready
        &&& !status.scene_jobs_pending
        &&& self.active() is Some
    }

    /// This opportunity is taken up by a frame, which may have to wait behind the active one.
    pub open spec fn takes_up(self, status: CompositorWorkStatus) -> bool {
        &&& status.can_draw
        &&& !self.commits_carry(status)
        &&& self.demand_with(status).0 != 0
    }

    /// The action for an opportunity.
    pub open spec fn begin_frame_action(
        self,
        timing: BeginFrameTiming,
        status: CompositorWorkStatus,
    ) -> CompositorFrameAction {
        if status.can_draw && self.commits_carry(status) {
            CompositorFrameAction::Commit {
                frame: self.active()->0,
                reason: CompositorCommitReason::ReadyCarry,
            }
        } else if self.takes_up(status) {
            let frame = self.begin_frames.next_frame(self.taken_demand(status), timing);
            match self.active() {
                None => CompositorFrameAction::StartFrame(frame),
                Some(active) => CompositorFrameAction::Coalesced { active, pending: frame },
            }
        } else {
            CompositorFrameAction::Idle
        }
    }

    /// The state after an opportunity.
    pub open spec fn after_begin_frame(
        self,
        timing: BeginFrameTiming,
        status: CompositorWorkStatus,
    ) -> Self {
        if self.takes_up(status) {
            CompositorModel {
                begin_frames: self.begin_frames.after_begin_frame(
                    self.taken_demand(status),
                    timing,
                ),
                pending_demand: FrameDemand(0),
                ..self
            }
        } else {
            self
        }
    }

    /// The action after frame work was submitted.
    pub open spec fn submitted_action(
        self,
        submit_deadline: Time,
        status: CompositorWorkStatus,
    ) -> CompositorFrameAction {
        match self.active() {
            None => CompositorFrameAction::Idle,
            Some(frame) => if status.is_ready() {
                CompositorFrameAction::Commit { frame, reason: CompositorCommitReason::SceneReady }
            } else {
                CompositorFrameAction::ArmDeadline(
                    CompositorDeadline {
                        frame_sequence: frame.sequence,
                        deadline: submit_deadline,
                    },
                )
            },
        }
    }

    /// The state after frame work was submitted: a deadline that was armed replaces the earlier
    /// one.
    pub open spec fn after_submitted(
        self,
        submit_deadline: Time,
        status: CompositorWorkStatus,
    ) -> Self {
        match self.submitted_action(submit_deadline, status) {
            CompositorFrameAction::ArmDeadline(armed) => CompositorModel {
                active_deadline: Some(armed),
                ..self
            },
            _ => self,
        }
    }

    /// The action when scene output becomes ready, which leaves the state as it is.
    pub open spec fn scene_ready_action(
        self,
        now: Time,
        status: CompositorWorkStatus,
    ) -> CompositorFrameAction {
        let in_time = match self.active_deadline {
            Some(armed) => now.0 <= armed.deadline.0,
            None => true,
        };
        match self.active() {
            Some(frame) if status.is_ready() && self.deadline_waiting_for_scene =>
                CompositorFrameAction::Commit { frame, reason: CompositorCommitReason::Deadline },
            Some(frame) if status.is_ready() && in_time => CompositorFrameAction::Commit {
                frame,
                reason: CompositorCommitReason::SceneReady,
            },
            _ => CompositorFrameAction::Idle,
        }
    }

    /// The action when the deadline of the active frame fires.
    pub open spec fn deadline_action(self) -> CompositorFrameAction {
        match self.active() {
            Some(frame) => CompositorFrameAction::Commit {
                frame,
                reason: CompositorCommitReason::Deadline,
            },
            None => CompositorFrameAction::Idle,
        }
    }

    /// The state after the deadline of the active frame fired.
    pub open spec fn after_deadline(self) -> Self {
        CompositorModel { begin_frames: self.begin_frames.after_deadline(), ..self }
    }

    /// The state after the active frame is complete: the demand of the frame that waited behind it
    /// is requested again.
    pub open spec fn after_complete(self) -> Self {
        CompositorModel {
            begin_frames: self.begin_frames.after_finish(),
            pending_demand: match self.begin_frames.pending {
                Some(pending) => self.pending_demand.joined(pending.demand),
                None => self.pending_demand,
            },
            active_deadline: None,
            deadline_waiting_for_scene: false,
            ready_carry: false,
        }
    }

    /// The action after a commit was attempted.
    pub open spec fn attempt_action(self, result: CompositorCommitResult) -> CompositorFrameAction {
        match result {
            CompositorCommitResult::Committed
            | CompositorCommitResult::NoWork => CompositorFrameAction::FinishFrame {
                pending: self.begin_frames.pending,
            },
            CompositorCommitResult::ScenePending
            | CompositorCommitResult::Rejected => CompositorFrameAction::Idle,
        }
    }

    /// The state after a commit was attempted.
    pub open spec fn after_attempt(self, result: CompositorCommitResult) -> Self {
        match result {
            CompositorCommitResult::Committed
            | CompositorCommitResult::NoWork => self.after_complete(),
            CompositorCommitResult::ScenePending => CompositorModel {
                deadline_waiting_for_scene: true,
                ..self
            },
            CompositorCommitResult::Rejected => CompositorModel {
                ready_carry: true,
                pending_demand: self.pending_demand.joined(FrameDemand(ANIMATION_BIT)),
                ..self
            },
        }
    }

    /// The state after everything but the frame numbering is cleared.
    pub open spec fn after_reset(self) -> Self {
        CompositorModel { begin_frames: self.begin_frames.after_finish(), ..Self::initial() }
    }
}

/// One event in the life of a [`CompositorFrameScheduler`], as the laws speak of it.
pub enum CompositorEvent {
    /// Demand was requested.
    Request(FrameDemand),
    /// An opportunity arrived.
    BeginFrame(BeginFrameTiming, CompositorWorkStatus),
    /// Frame work was submitted.
    Submitted(Time, CompositorWorkStatus),
    /// Scene output became ready.
    SceneReady(Time, CompositorWorkStatus),
    /// The deadline fired.
    Deadline,
    /// A commit was attempted.
    CommitAttempt(CompositorCommitResult),
    /// The active frame was completed.
    CommitComplete,
}

impl CompositorModel {
    /// The state after an event.
    pub open spec fn after_event(self, event: CompositorEvent) -> Self {
        match event {
            CompositorEvent::Request(demand) => CompositorModel {
                pending_demand: self.pending_demand.joined(demand),
                ..self
            },
            CompositorEvent::BeginFrame(timing, status) => self.after_begin_frame(timing, status),
            CompositorEvent::Submitted(deadline, status) => self.after_submitted(deadline, status),
            CompositorEvent::SceneReady(_, _) => self,
            CompositorEvent::Deadline => self.after_deadline(),
            CompositorEvent::CommitAttempt(result) => self.after_attempt(result),
            CompositorEvent::CommitComplete => self.after_complete(),
        }
    }

    /// The state after events, one after the other.
    pub open spec fn after_events(self, events: Seq<CompositorEvent>) -> Self
        decreases events.len(),
    {
        if events.len() == 0 {
            self
        } else {
            self.after_events(events.drop_last()).after_event(events.last())
        }
    }

    /// The event starts a frame.
    pub open spec fn is_started_by(self, event: CompositorEvent) -> bool {
        event matches CompositorEvent::BeginFrame(timing, status) && self.begin_frame_action(
            timing,
            status,
        ) is StartFrame
    }
}

/// Chromium-style compositor-frame lifecycle scheduler.
///
/// The scheduler owns requested demand, active/pending BeginFrame lifecycle, active deadline
/// state, and pending-frame handoff. It does not own rendering, layer trees, timers, or platform
/// frame sources; hosts feed it snapshots and execute returned actions.
#[derive(Debug)]
pub struct CompositorFrameScheduler {
    begin_frames: BeginFrameScheduler,
    pending_demand: FrameDemand,
    active_deadline: Option<CompositorDeadline>,
    deadline_waiting_for_scene: bool,
    ready_carry: bool,
}

impl View for CompositorFrameScheduler {
    type V = CompositorModel;

    closed spec fn view(&self) -> CompositorModel {
        CompositorModel {
            begin_frames: self.begin_frames@,
            pending_demand: self.pending_demand,
            active_deadline: self.active_deadline,
            deadline_waiting_for_scene: self.deadline_waiting_for_scene,
            ready_carry: self.ready_carry,
        }
    }
}

impl Clone for CompositorFrameScheduler {
    fn clone(&self) -> (r: Self)
        ensures
            r == *self,
    {
        Self {
            begin_frames: self.begin_frames.clone(),
            pending_demand: self.pending_demand,
            active_deadline: self.active_deadline,
            deadline_waiting_for_scene: self.deadline_waiting_for_scene,
            ready_carry: self.ready_carry,
        }
    }
}

impl Default for CompositorFrameScheduler {
    fn default() -> (r: Self)
        ensures
            r@ == CompositorModel::initial(),
            r@.wf(),
    {
        Self::new()
    }
}

impl CompositorFrameScheduler {
    /// Creates an idle scheduler.
    #[must_use]
    pub fn new() -> (r: Self)
        ensures
            r@ == CompositorModel::initial(),
            r@.wf(),
    {
        Self {
            begin_frames: BeginFrameScheduler::new(),
            pending_demand: FrameDemand::none(),
            active_deadline: None,
            deadline_waiting_for_scene: false,
            ready_carry: false,
        }
    }

    /// Adds frame demand. Multiple calls coalesce until a frame starts.
    pub fn request_frame(&mut self, demand: FrameDemand)
        ensures
            final(self)@ == (CompositorModel {
                pending_demand: old(self)@.pending_demand.joined(demand),
                ..old(self)@
            }),
            old(self)@.wf() ==> final(self)@.wf(),
    {
        self.pending_demand.insert(demand);
    }

    /// Returns true if a frame is active.
    #[must_use]
    pub fn has_active_frame(&self) -> (r: bool)
        ensures
            r == self@.active() is Some,
    {
        self.begin_frames.has_active_frame()
    }

    /// Returns true if a coalesced frame is waiting behind the active frame.
    #[must_use]
    pub fn has_pending_frame(&self) -> (r: bool)
        ensures
            r == self@.begin_frames.pending is Some,
    {
        self.begin_frames.has_pending_frame()
    }

    /// Returns the active frame if one exists.
    #[must_use]
    pub fn active_frame(&self) -> (r: Option<BeginFrame>)
        ensures
            r == self@.active(),
    {
        self.begin_frames.active_frame()
    }

    /// Returns the active deadline if one has been armed.
    #[must_use]
    pub fn active_deadline(&self) -> (r: Option<CompositorDeadline>)
        ensures
            r == self@.active_deadline,
    {
        self.active_deadline
    }

    /// Returns true if the host should keep its frame source active.
    ///
    /// Chromium only stops observing BeginFrames once the scheduler is idle. Do the same: active
    /// frames, pending frames, or external ready work keep the source alive even if no new app
    /// damage is currently queued.
    #[must_use]
    pub fn needs_frame_source(&self, status: CompositorWorkStatus) -> (r: bool)
        ensures
            r == self@.needs_source(status),
    {
        status.can_draw && (!self.pending_demand.is_empty() || self.begin_frames.has_active_frame()
            || self.begin_frames.has_pending_frame() || self.ready_carry
            || status.needs_frame_source())
    }

    /// Handles a platform BeginFrame opportunity.
    ///
    /// If the scheduler is busy, only the latest opportunity is retained and the returned action
    /// is [`CompositorFrameAction::Coalesced`]. It keeps the demand of the opportunities before it,
    /// so that none is lost. Hosts should not start new frame work until the active frame finishes.
    pub fn on_begin_frame(
        &mut self,
        timing: BeginFrameTiming,
        status: CompositorWorkStatus,
    ) -> (r: CompositorFrameAction)
        ensures
            r == old(self)@.begin_frame_action(timing, status),
            final(self)@ == old(self)@.after_begin_frame(timing, status),
            old(self)@.wf() ==> final(self)@.wf(),
    {
        if !status.can_draw {
            return CompositorFrameAction::Idle;
        }
        if (self.ready_carry || status.commit_ready) && !status.scene_jobs_pending {
            if let Some(frame) = self.begin_frames.active_frame() {
                return CompositorFrameAction::Commit {
                    frame,
                    reason: CompositorCommitReason::ReadyCarry,
                };
            }
        }
        let demand = self.effective_demand(status);
        if demand.is_empty() {
            return CompositorFrameAction::Idle;
        }
        self.pending_demand = FrameDemand::none();
        let mut taken = demand;
        if let Some(pending) = self.begin_frames.pending_frame() {
            taken.insert(pending.demand);
            proof {
                demand::law_joined_is_union(demand, pending.demand, demand);
            }
        }

        match self.begin_frames.begin_frame(taken, timing) {
            BeginFrameResult::Idle => CompositorFrameAction::Idle,
            BeginFrameResult::Start(frame) => CompositorFrameAction::StartFrame(frame),
            BeginFrameResult::Coalesced { active, pending } => CompositorFrameAction::Coalesced {
                active,
                pending,
            },
        }
    }

    fn effective_demand(&self, status: CompositorWorkStatus) -> (r: FrameDemand)
        ensures
            r == self@.demand_with(status),
    {
        let mut demand = self.pending_demand;
        if status.needs_frame_work || status.scene_jobs_pending || status.commit_ready {
            demand.insert(FrameDemand::animation());
        }
        demand
    }

    /// Reports that the host submitted frame work and should wait for scene readiness or
    /// deadline.
    ///
    /// If there are no pending scene jobs and output is already ready, this returns a commit
    /// action immediately instead of arming a deadline.
    pub fn on_frame_submitted(
        &mut self,
        submit_deadline: Time,
        status: CompositorWorkStatus,
    ) -> (r: CompositorFrameAction)
        ensures
            r == old(self)@.submitted_action(submit_deadline, status),
            final(self)@ == old(self)@.after_submitted(submit_deadline, status),
            old(self)@.wf() ==> final(self)@.wf(),
    {
        let frame = match self.begin_frames.active_frame() {
            Some(frame) => frame,
            None => {
                return CompositorFrameAction::Idle;
            },
        };
        if status.commit_ready && !status.scene_jobs_pending {
            return CompositorFrameAction::Commit {
                frame,
                reason: CompositorCommitReason::SceneReady,
            };
        }
        let deadline = CompositorDeadline {
            frame_sequence: frame.sequence,
            deadline: submit_deadline,
        };
        self.active_deadline = Some(deadline);
        CompositorFrameAction::ArmDeadline(deadline)
    }

    /// Reports scene/render job readiness.
    ///
    /// Ready output commits immediately if it arrives before the active deadline. Late output
    /// waits for the deadline/next scheduler turn, which prevents surprise second commits inside
    /// one frame opportunity.
    pub fn on_scene_ready(&mut self, now: Time, status: CompositorWorkStatus) -> (r:
        CompositorFrameAction)
        ensures
            r == old(self)@.scene_ready_action(now, status),
            *final(self) == *old(self),
    {
        let frame = match self.begin_frames.active_frame() {
            Some(frame) => frame,
            None => {
                return CompositorFrameAction::Idle;
            },
        };
        if status.scene_jobs_pending || !status.commit_ready {
            return CompositorFrameAction::Idle;
        }
        if self.deadline_waiting_for_scene {
            return CompositorFrameAction::Commit {
                frame,
                reason: CompositorCommitReason::Deadline,
            };
        }
        let in_time = match self.active_deadline {
            Some(armed) => now <= armed.deadline,
            None => true,
        };
        if in_time {
            return CompositorFrameAction::Commit {
                frame,
                reason: CompositorCommitReason::SceneReady,
            };
        }
        CompositorFrameAction::Idle
    }

    /// Handles the active frame deadline.
    ///
    /// The returned commit action does not imply the host has new output ready. Hosts that cannot
    /// commit because required scene output is still pending must report
    /// [`CompositorCommitResult::ScenePending`] so the scheduler keeps the active frame alive
    /// until that scene output completes.
    pub fn on_deadline(&mut self) -> (r: CompositorFrameAction)
        ensures
            r == old(self)@.deadline_action(),
            final(self)@ == old(self)@.after_deadline(),
            old(self)@.wf() ==> final(self)@.wf(),
    {
        match self.begin_frames.begin_deadline() {
            BeginFrameDeadlineResult::Commit(frame) => CompositorFrameAction::Commit {
                frame,
                reason: CompositorCommitReason::Deadline,
            },
            BeginFrameDeadlineResult::Idle => CompositorFrameAction::Idle,
        }
    }

    /// Reports the result of a commit action returned by the scheduler.
    pub fn on_commit_attempt(&mut self, result: CompositorCommitResult) -> (r:
        CompositorFrameAction)
        ensures
            r == old(self)@.attempt_action(result),
            final(self)@ == old(self)@.after_attempt(result),
            old(self)@.wf() ==> final(self)@.wf(),
    {
        match result {
            CompositorCommitResult::Committed
            | CompositorCommitResult::NoWork => self.on_commit_complete(),
            CompositorCommitResult::ScenePending => {
                self.deadline_waiting_for_scene = true;
                CompositorFrameAction::Idle
            },
            CompositorCommitResult::Rejected => {
                self.ready_carry = true;
                self.pending_demand.insert(FrameDemand::animation());
                CompositorFrameAction::Idle
            },
        }
    }

    /// Reports that the active frame is complete.
    pub fn on_commit_complete(&mut self) -> (r: CompositorFrameAction)
        ensures
            r == (CompositorFrameAction::FinishFrame { pending: old(self)@.begin_frames.pending }),
            final(self)@ == old(self)@.after_complete(),
            old(self)@.wf() ==> final(self)@.wf(),
    {
        self.active_deadline = None;
        self.deadline_waiting_for_scene = false;
        self.ready_carry = false;
        let pending = self.begin_frames.finish_frame();
        if let Some(frame) = pending {
            self.pending_demand.insert(frame.demand);
        }
        CompositorFrameAction::FinishFrame { pending }
    }

    /// Clears active and pending scheduler state.
    pub fn reset(&mut self)
        ensures
            final(self)@ == old(self)@.after_reset(),
            old(self)@.wf() ==> final(self)@.wf(),
    {
        self.begin_frames.reset();
        self.pending_demand = FrameDemand::none();
        self.active_deadline = None;
        self.deadline_waiting_for_scene = false;
        self.ready_carry = false;
    }
}

/// Refused output is never dropped silently. As long as the host can draw, the frame source
/// stays active whatever else the host reports, and the next opportunity without scene jobs asks
/// for the commit of the same frame again.
pub proof fn law_rejected_output_is_carried(
    state: CompositorModel,
    timing: BeginFrameTiming,
    status: CompositorWorkStatus,
)
    requires
        status.can_draw,
    ensures
        state.after_attempt(CompositorCommitResult::Rejected).needs_source(status),
        state.after_attempt(CompositorCommitResult::Rejected).active() == state.active(),
        state.active() matches Some(frame) ==> !status.scene_jobs_pending
            ==> state.after_attempt(CompositorCommitResult::Rejected).begin_frame_action(
            timing,
            status,
        ) == (CompositorFrameAction::Commit { frame, reason: CompositorCommitReason::ReadyCarry }),
{
}

/// A deadline that finds the scene unfinished keeps the frame alive, and once the scene is
/// ready its commit is asked for as that deadline's, however late it comes.
pub proof fn law_pending_scene_commits_at_its_deadline(
    state: CompositorModel,
    now: Time,
    status: CompositorWorkStatus,
)
    requires
        status.is_ready(),
    ensures
        state.after_attempt(CompositorCommitResult::ScenePending).active() == state.active(),
        state.active() matches Some(frame) ==> state.after_attempt(
            CompositorCommitResult::ScenePending,
        ).scene_ready_action(now, status) == (CompositorFrameAction::Commit {
            frame,
            reason: CompositorCommitReason::Deadline,
        }),
{
}

/// After a deadline was armed for the active frame, ready output commits at once up to that
/// deadline; later output waits, and the frame is then committed by its deadline.
pub proof fn law_late_output_waits_for_the_deadline(
    state: CompositorModel,
    submit_deadline: Time,
    submitted: CompositorWorkStatus,
    now: Time,
    status: CompositorWorkStatus,
)
    requires
        state.active() is Some,
        !state.deadline_waiting_for_scene,
        !submitted.is_ready(),
        status.is_ready(),
    ensures
        ({
            let armed = state.after_submitted(submit_deadline, submitted);
            let frame = state.active()->0;
            &&& armed.active() == state.active()
            &&& armed.scene_ready_action(now, status) == if now.0 <= submit_deadline.0 {
                CompositorFrameAction::Commit { frame, reason: CompositorCommitReason::SceneReady }
            } else {
                CompositorFrameAction::Idle
            }
            &&& armed.deadline_action() == (CompositorFrameAction::Commit {
                frame,
                reason: CompositorCommitReason::Deadline,
            })
        }),
{
}

/// While a frame is active no opportunity starts another one, and the active frame stays the
/// same until it is complete or the scheduler is reset.
pub proof fn law_busy_scheduler_starts_no_frame(
    state: CompositorModel,
    timing: BeginFrameTiming,
    status: CompositorWorkStatus,
    submit_deadline: Time,
)
    requires
        state.active() is Some,
    ensures
        !(state.begin_frame_action(timing, status) is StartFrame),
        state.after_begin_frame(timing, status).active() == state.active(),
        state.after_submitted(submit_deadline, status).active() == state.active(),
        state.after_deadline().active() == state.active(),
        state.after_attempt(CompositorCommitResult::ScenePending).active() == state.active(),
        state.after_attempt(CompositorCommitResult::Rejected).active() == state.active(),
{
}

/// The frame source stays active while a frame is active, pending or carried, for as long as
/// the host can draw.
pub proof fn law_unfinished_frames_keep_the_source(
    state: CompositorModel,
    status: CompositorWorkStatus,
)
    requires
        status.can_draw,
        state.active() is Some || state.begin_frames.pending is Some || state.ready_carry,
    ensures
        state.needs_source(status),
{
}

/// A host that cannot draw needs no frame source, and its opportunities change nothing.
pub proof fn law_hidden_host_is_idle(
    state: CompositorModel,
    timing: BeginFrameTiming,
    status: CompositorWorkStatus,
)
    requires
        !status.can_draw,
    ensures
        !state.needs_source(status),
        state.begin_frame_action(timing, status) == CompositorFrameAction::Idle,
        state.after_begin_frame(timing, status) == state,
{
}

/// A frame that waited behind the active one is not lost when that one completes. The source
/// stays active, and the next opportunity starts a frame that serves the waiting frame's demand.
pub proof fn law_pending_frame_is_handed_over(
    state: CompositorModel,
    timing: BeginFrameTiming,
    status: CompositorWorkStatus,
)
    requires
        state.wf(),
        state.begin_frames.pending is Some,
        status.can_draw,
    ensures
        state.after_complete().needs_source(status),
        state.after_complete().begin_frame_action(timing, status) is StartFrame,
        state.after_complete().begin_frame_action(timing, status)->StartFrame_0.demand.includes(
            (state.begin_frames.pending->0).demand,
        ),
{
    let waiting = (state.begin_frames.pending->0).demand.0;
    let requested = state.pending_demand.0;
    let animation = ANIMATION_BIT;
    assert(waiting != 0 ==> (requested | waiting) != 0) by (bit_vector);
    assert((requested | waiting) & waiting == waiting) by (bit_vector);
    assert(((requested | waiting) | animation) & waiting == waiting) by (bit_vector);
    assert(waiting != 0 ==> ((requested | waiting) | animation) != 0) by (bit_vector);
}

/// No event loses demand but the one that starts the frame which serves it.
proof fn lemma_unserved_is_kept(state: CompositorModel, event: CompositorEvent)
    requires
        !state.is_started_by(event),
    ensures
        state.after_event(event).unserved().includes(state.unserved()),
        event matches CompositorEvent::Request(requested) ==> state.after_event(
            event,
        ).unserved().includes(requested),
{
    let asked = state.pending_demand.0;
    let waiting = match state.begin_frames.pending {
        Some(pending) => pending.demand.0,
        None => 0u8,
    };
    let more = match event {
        CompositorEvent::Request(requested) => requested.0,
        _ => ANIMATION_BIT,
    };
    assert(asked & asked == asked && (asked | waiting) & (asked | waiting) == asked | waiting)
        by (bit_vector);
    assert((asked | more) & asked == asked && (asked | more) & more == more) by (bit_vector);
    assert(((asked | more) | waiting) & (asked | waiting) == asked | waiting && ((asked | more)
        | waiting) & more == more) by (bit_vector);
    assert(0u8 | (asked | waiting) == asked | waiting && 0u8 | asked == asked && 0u8 | (asked
        | more) == asked | more && 0u8 | ((asked | more) | waiting) == (asked | more) | waiting)
        by (bit_vector);
    assert((asked != 0 ==> asked | waiting != 0) && (asked | more != 0 ==> (asked | more)
        | waiting != 0)) by (bit_vector);
}

/// Requested demand coalesces until a frame starts. Whatever was requested since the last start is
/// served by the next frame that starts, however many opportunities were coalesced, committed or
/// ignored in between; and that frame leaves no demand behind.
pub proof fn law_requested_demand_reaches_the_next_frame(
    state: CompositorModel,
    events: Seq<CompositorEvent>,
    place: int,
    requested: FrameDemand,
    timing: BeginFrameTiming,
    status: CompositorWorkStatus,
)
    requires
        0 <= place < events.len(),
        events[place] == CompositorEvent::Request(requested),
        forall|i: int|
            place < i < events.len() ==> !state.after_events(events.take(i)).is_started_by(
                #[trigger] events[i],
            ),
    ensures
        ({
            let now = state.after_events(events);
            &&& now.unserved().includes(requested)
            &&& now.begin_frame_action(timing, status) matches CompositorFrameAction::StartFrame(
                frame,
            ) ==> frame.demand.includes(requested) && frame.demand.includes(now.unserved())
            &&& now.wf() && now.begin_frame_action(timing, status) is StartFrame
                ==> now.after_begin_frame(timing, status).unserved().0 == 0
        }),
    decreases events.len(),
{
    let last = events.len() - 1;
    let (fewer, event) = (events.drop_last(), events[last]);
    let before = state.after_events(fewer);
    let now = state.after_events(events);
    assert(events.take(last) =~= fewer);
    if place < last {
        assert(fewer[place] == events[place]);
        assert forall|i: int| place < i < fewer.len() implies !state.after_events(
            fewer.take(i),
        ).is_started_by(#[trigger] fewer[i]) by {
            assert(fewer.take(i) =~= events.take(i));
            assert(!state.after_events(events.take(i)).is_started_by(events[i]));
        }
        law_requested_demand_reaches_the_next_frame(
            state,
            fewer,
            place,
            requested,
            timing,
            status,
        );
        lemma_unserved_is_kept(before, event);
        demand::lemma_includes_is_transitive(now.unserved(), before.unserved(), requested);
    } else {
        lemma_unserved_is_kept(before, event);
    }
    let (asked, animation) = (now.pending_demand.0, ANIMATION_BIT);
    let waiting = match now.begin_frames.pending {
        Some(pending) => pending.demand.0,
        None => 0u8,
    };
    assert(asked & asked == asked && (asked | animation) & asked == asked && (asked | waiting) & (
    asked | waiting) == asked | waiting && ((asked | animation) | waiting) & (asked | waiting)
        == asked | waiting) by (bit_vector);
    let taken = now.taken_demand(status);
    assert(taken.includes(now.unserved()));
    demand::lemma_includes_is_transitive(taken, now.unserved(), requested);
}

/// Completing a frame leaves none active, none pending, no deadline and nothing carried, so
/// without demand and host work the next opportunity is ignored and the source can stop.
pub proof fn law_completed_frame_leaves_nothing_behind(
    state: CompositorModel,
    result: CompositorCommitResult,
    timing: BeginFrameTiming,
    status: CompositorWorkStatus,
)
    requires
        result == CompositorCommitResult::Committed || result == CompositorCommitResult::NoWork,
    ensures
        ({
            let done = state.after_attempt(result);
            &&& done.active() is None
            &&& done.begin_frames.pending is None
            &&& done.active_deadline is None
            &&& !done.deadline_waiting_for_scene
            &&& !done.ready_carry
            &&& (state.begin_frames.pending is None && state.pending_demand.0 == 0
                && !status.has_work()) ==> {
                &&& !done.needs_source(status)
                &&& done.begin_frame_action(timing, status) == CompositorFrameAction::Idle
                &&& done.after_begin_frame(timing, status) == done
            }
        }),
{
}

/// After a reset nothing but the frame numbering remains, and the source is needed exactly
/// when the host itself has work.
pub proof fn law_reset_returns_to_idle(state: CompositorModel, status: CompositorWorkStatus)
    ensures
        state.after_reset().active() is None,
        state.after_reset().active_deadline is None,
        state.after_reset().needs_source(status) == (status.can_draw && status.has_work()),
        state.after_reset().begin_frames.next_sequence == state.begin_frames.next_sequence,
{
}

/// The host's own work counts as demand for animation, and nothing that was requested or waits is
/// forgotten: a frame that takes up an opportunity serves exactly what was requested, what the
/// frame it replaces was for, and animation where the host has work to run, a scene in flight or
/// output to commit. It carries the opportunity's own timing.
pub proof fn law_frames_serve_the_demand_and_keep_the_timing(
    state: CompositorModel,
    timing: BeginFrameTiming,
    status: CompositorWorkStatus,
)
    ensures
        ({
            let own: u8 = if status.needs_frame_work || status.scene_jobs_pending
                || status.commit_ready {
                1
            } else {
                0
            };
            let waiting: u8 = match state.begin_frames.pending {
                Some(pending) => pending.demand.0,
                None => 0,
            };
            let told = match state.begin_frame_action(timing, status) {
                CompositorFrameAction::StartFrame(frame) => Some(frame),
                CompositorFrameAction::Coalesced { pending, .. } => Some(pending),
                _ => None,
            };
            let after = state.after_begin_frame(timing, status);
            &&& told matches Some(frame) ==> {
                &&& frame.demand.0 == state.pending_demand.0 | own | waiting
                &&& frame.timing.now == timing.now
                &&& frame.timing.frame_time == timing.frame_time
                &&& frame.timing.deadline == timing.deadline
                &&& frame.timing.interval == timing.interval
                &&& frame.sequence == state.begin_frames.next_sequence
                &&& after.pending_demand.0 == 0
                &&& match state.begin_frames.phase {
                    BeginFrameSchedulerPhase::Idle => after.begin_frames.phase
                        == BeginFrameSchedulerPhase::InsideBeginFrame(frame),
                    _ => after.begin_frames.phase == state.begin_frames.phase
                        && after.begin_frames.pending == Some(frame),
                }
            }
            &&& told is None ==> after == state
            &&& after.active_deadline == state.active_deadline
            &&& after.ready_carry == state.ready_carry
            &&& after.deadline_waiting_for_scene == state.deadline_waiting_for_scene
        }),
{
    let asked = state.pending_demand.0;
    let waiting: u8 = match state.begin_frames.pending {
        Some(pending) => pending.demand.0,
        None => 0,
    };
    assert(asked | 0 == asked && asked | 0 | waiting == asked | waiting && asked | 1 | 0 == asked
        | 1 && (asked != 0 ==> asked | waiting != 0) && asked | 1 | waiting != 0 && asked | 1 != 0)
        by (bit_vector);
}

/// What an opportunity leads to, for a host that can draw. Without an active frame, a frame starts
/// if and only if something was requested or the host has work. With one, output that is ready or
/// was refused is committed for that frame, unless a scene is in flight; otherwise the opportunity
/// waits behind it if and only if there is something to do.
pub proof fn law_opportunities_are_used_exactly_when_there_is_something_to_do(
    state: CompositorModel,
    timing: BeginFrameTiming,
    status: CompositorWorkStatus,
)
    requires
        status.can_draw,
        state.wf(),
    ensures
        ({
            let action = state.begin_frame_action(timing, status);
            let something = state.pending_demand.0 != 0 || status.needs_frame_work
                || status.scene_jobs_pending || status.commit_ready;
            match state.begin_frames.phase {
                BeginFrameSchedulerPhase::Idle => {
                    &&& something <==> action is StartFrame
                    &&& !something <==> action is Idle
                },
                BeginFrameSchedulerPhase::InsideBeginFrame(active)
                | BeginFrameSchedulerPhase::InsideDeadline(active) => {
                    let ready = (state.ready_carry || status.commit_ready)
                        && !status.scene_jobs_pending;
                    &&& ready ==> action == (CompositorFrameAction::Commit {
                        frame: active,
                        reason: CompositorCommitReason::ReadyCarry,
                    })
                    &&& !ready && something ==> action is Coalesced && (action matches
                        CompositorFrameAction::Coalesced { active: told, .. } ==> told == active)
                    &&& !ready && !something ==> action is Idle
                },
            }
        }),
{
    let asked = state.pending_demand.0;
    assert(asked | 1 != 0) by (bit_vector);
}

/// The frame source is kept exactly as long as the host can draw and anything is left to do:
/// requested demand, an active or waiting frame, refused output, or work of the host's own.
pub proof fn law_source_is_kept_while_anything_is_left(
    state: CompositorModel,
    status: CompositorWorkStatus,
)
    ensures
        state.needs_source(status) <==> {
            &&& status.can_draw
            &&& {
                ||| state.pending_demand.0 != 0
                ||| !(state.begin_frames.phase is Idle)
                ||| state.begin_frames.pending is Some
                ||| state.ready_carry
                ||| status.needs_frame_work
                ||| status.scene_jobs_pending
                ||| status.commit_ready
            }
        },
        status.has_work() <==> status.needs_frame_work || status.scene_jobs_pending
            || status.commit_ready,
{
}

/// Submitted work is committed at once, for the active frame, if its output is ready and no scene
/// is in flight. Otherwise the given deadline is armed for exactly that frame and replaces the one
/// before. Without an active frame nothing happens.
pub proof fn law_submitted_work_is_committed_or_gets_the_deadline(
    state: CompositorModel,
    submit_deadline: Time,
    status: CompositorWorkStatus,
)
    ensures
        ({
            let action = state.submitted_action(submit_deadline, status);
            let after = state.after_submitted(submit_deadline, status);
            let ready = status.commit_ready && !status.scene_jobs_pending;
            &&& after.begin_frames == state.begin_frames
            &&& after.pending_demand == state.pending_demand
            &&& after.ready_carry == state.ready_carry
            &&& after.deadline_waiting_for_scene == state.deadline_waiting_for_scene
            &&& match state.begin_frames.phase {
                BeginFrameSchedulerPhase::Idle => action is Idle && after == state,
                BeginFrameSchedulerPhase::InsideBeginFrame(active)
                | BeginFrameSchedulerPhase::InsideDeadline(active) => {
                    &&& ready ==> action == (CompositorFrameAction::Commit {
                        frame: active,
                        reason: CompositorCommitReason::SceneReady,
                    }) && after == state
                    &&& !ready ==> {
                        &&& action matches CompositorFrameAction::ArmDeadline(armed)
                        &&& armed.frame_sequence == active.sequence
                        &&& armed.deadline == submit_deadline
                        &&& after.active_deadline == Some(armed)
                    }
                },
            }
        }),
{
}

/// Finished scene output is committed for the active frame: as its deadline's where that deadline
/// was already missed, and else at once as long as no deadline has passed. It is never committed
/// while another scene is in flight, nor when there is nothing to commit.
pub proof fn law_scene_output_is_committed_in_time(
    state: CompositorModel,
    now: Time,
    status: CompositorWorkStatus,
)
    ensures
        ({
            let action = state.scene_ready_action(now, status);
            let ready = status.commit_ready && !status.scene_jobs_pending;
            match state.begin_frames.phase {
                BeginFrameSchedulerPhase::Idle => action is Idle,
                BeginFrameSchedulerPhase::InsideBeginFrame(active)
                | BeginFrameSchedulerPhase::InsideDeadline(active) => {
                    let late = state.active_deadline matches Some(armed) && now.0
                        > armed.deadline.0;
                    &&& !ready ==> action is Idle
                    &&& ready && state.deadline_waiting_for_scene ==> action
                        == (CompositorFrameAction::Commit {
                        frame: active,
                        reason: CompositorCommitReason::Deadline,
                    })
                    &&& ready && !state.deadline_waiting_for_scene && !late ==> action
                        == (CompositorFrameAction::Commit {
                        frame: active,
                        reason: CompositorCommitReason::SceneReady,
                    })
                    &&& ready && !state.deadline_waiting_for_scene && late ==> action is Idle
                },
            }
        }),
{
}

/// The deadline commits the active frame and leaves everything else as it is; without one nothing
/// happens.
pub proof fn law_deadline_commits_the_active_frame(state: CompositorModel)
    ensures
        ({
            let after = state.after_deadline();
            &&& match state.begin_frames.phase {
                BeginFrameSchedulerPhase::Idle => state.deadline_action() is Idle && after
                    == state,
                BeginFrameSchedulerPhase::InsideBeginFrame(active)
                | BeginFrameSchedulerPhase::InsideDeadline(active) => {
                    &&& state.deadline_action() == (CompositorFrameAction::Commit {
                        frame: active,
                        reason: CompositorCommitReason::Deadline,
                    })
                    &&& after.begin_frames.phase == BeginFrameSchedulerPhase::InsideDeadline(active)
                },
            }
            &&& after.begin_frames.pending == state.begin_frames.pending
            &&& after.pending_demand == state.pending_demand
            &&& after.active_deadline == state.active_deadline
            &&& after.ready_carry == state.ready_carry
            &&& after.deadline_waiting_for_scene == state.deadline_waiting_for_scene
        }),
{
}

/// A commit attempt ends the frame, with the frame that waits behind it handed out, exactly when it
/// was committed or there was nothing to commit. An attempt that found the scene unfinished or was
/// refused ends nothing: the one remembers that the deadline waits, the other that output is to be
/// carried and that another opportunity is wanted.
pub proof fn law_commit_attempts_end_the_frame_or_keep_it(
    state: CompositorModel,
    result: CompositorCommitResult,
)
    ensures
        ({
            let after = state.after_attempt(result);
            let waiting: u8 = match state.begin_frames.pending {
                Some(pending) => pending.demand.0,
                None => 0,
            };
            match result {
                CompositorCommitResult::Committed | CompositorCommitResult::NoWork => {
                    &&& state.attempt_action(result) == (CompositorFrameAction::FinishFrame {
                        pending: state.begin_frames.pending,
                    })
                    &&& after == state.after_complete()
                    &&& after.begin_frames.phase is Idle
                    &&& after.begin_frames.pending is None
                    &&& after.begin_frames.next_sequence == state.begin_frames.next_sequence
                    &&& after.pending_demand.0 == state.pending_demand.0 | waiting
                    &&& after.active_deadline is None
                    &&& !after.ready_carry
                    &&& !after.deadline_waiting_for_scene
                },
                CompositorCommitResult::ScenePending => {
                    &&& state.attempt_action(result) is Idle
                    &&& after == CompositorModel { deadline_waiting_for_scene: true, ..state }
                },
                CompositorCommitResult::Rejected => {
                    &&& state.attempt_action(result) is Idle
                    &&& after.begin_frames == state.begin_frames
                    &&& after.active_deadline == state.active_deadline
                    &&& after.deadline_waiting_for_scene == state.deadline_waiting_for_scene
                    &&& after.ready_carry
                    &&& after.pending_demand.0 == state.pending_demand.0 | 1
                },
            }
        }),
{
    let asked = state.pending_demand.0;
    assert(asked | 0 == asked) by (bit_vector);
}

/// A reset forgets frames, demand, deadline and carried output, and keeps only the numbering.
pub proof fn law_reset_forgets_everything_but_the_numbering(state: CompositorModel)
    ensures
        ({
            let after = state.after_reset();
            &&& after.begin_frames.phase is Idle
            &&& after.begin_frames.pending is None
            &&& after.begin_frames.next_sequence == state.begin_frames.next_sequence
            &&& after.pending_demand.0 == 0
            &&& after.active_deadline is None
            &&& !after.ready_carry
            &&& !after.deadline_waiting_for_scene
        }),
        ({
            let fresh = CompositorModel::initial();
            &&& fresh.begin_frames.phase is Idle
            &&& fresh.begin_frames.pending is None
            &&& fresh.begin_frames.next_sequence == 1
            &&& fresh.pending_demand.0 == 0
            &&& fresh.active_deadline is None
            &&& !fresh.ready_carry
            &&& !fresh.deadline_waiting_for_scene
        }),
{
}

} // verus!
