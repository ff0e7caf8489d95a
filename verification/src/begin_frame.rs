//! The begin-frame lifecycle: one active frame, and the latest opportunity waiting behind it.

use crate::demand::FrameDemand;
use crate::time::{Duration, Time};
use vstd::prelude::*;

verus! {

/// Timing attached to one compositor begin-frame opportunity.
///
/// This mirrors the browser-compositor model where a begin-frame carries the semantic frame time,
/// the deadline for producing output, and the current target interval. The scheduler state
/// machine uses this as a lifecycle token; policy math still lives in
/// [`plan_frame`](crate::plan::plan_frame).
#[derive(Clone, Copy, Debug, PartialEq, Eq, Structural)]
pub struct BeginFrameTiming {
    /// Current host time when the opportunity was received.
    pub now: Time,
    /// Semantic frame time for animation sampling.
    pub frame_time: Time,
    /// Deadline for producing compositor output for this opportunity.
    pub deadline: Time,
    /// Current target frame interval.
    pub interval: Duration,
}

/// A compositor begin-frame tracked by [`BeginFrameScheduler`].
#[derive(Clone, Copy, Debug, PartialEq, Eq, Structural)]
pub struct BeginFrame {
    /// Monotonic scheduler sequence number.
    pub sequence: u64,
    /// Demand that caused this frame.
    pub demand: FrameDemand,
    /// Timing for this frame opportunity.
    pub timing: BeginFrameTiming,
}

/// Result of feeding a begin-frame opportunity into [`BeginFrameScheduler`].
#[derive(Clone, Copy, Debug, PartialEq, Eq, Structural)]
pub enum BeginFrameResult {
    /// No work is pending, so the opportunity was ignored.
    Idle,
    /// Start frame work for this opportunity.
    Start(BeginFrame),
    /// A frame is already active. The opportunity was coalesced into one pending frame and must
    /// not start new render work yet.
    Coalesced {
        /// Currently active frame.
        active: BeginFrame,
        /// Latest pending frame that should run after the active frame ends.
        pending: BeginFrame,
    },
}

/// Result of entering the deadline phase for the active begin-frame.
#[derive(Clone, Copy, Debug, PartialEq, Eq, Structural)]
pub enum BeginFrameDeadlineResult {
    /// No frame is active.
    Idle,
    /// The active frame reached its deadline. The host should commit whatever output is currently
    /// ready, then call [`BeginFrameScheduler::finish_frame`].
    Commit(BeginFrame),
}

/// Where the active frame is in its life.
#[derive(Clone, Copy, Debug, PartialEq, Eq, Structural)]
pub enum BeginFrameSchedulerPhase {
    /// No frame is active.
    Idle,
    /// Work for the frame has begun.
    InsideBeginFrame(BeginFrame),
    /// The frame has reached its deadline.
    InsideDeadline(BeginFrame),
}

impl BeginFrameSchedulerPhase {
    /// The active frame.
    pub open spec fn frame(self) -> Option<BeginFrame> {
        match self {
            BeginFrameSchedulerPhase::Idle => None,
            BeginFrameSchedulerPhase::InsideBeginFrame(frame) => Some(frame),
            BeginFrameSchedulerPhase::InsideDeadline(frame) => Some(frame),
        }
    }
}

/// The state of a [`BeginFrameScheduler`].
pub struct BeginFrameModel {
    /// The active frame and its phase.
    pub phase: BeginFrameSchedulerPhase,
    /// The latest opportunity that arrived while a frame was active.
    pub pending: Option<BeginFrame>,
    /// The number of the next frame.
    pub next_sequence: u64,
}

/// `n + 1`, capped at the largest number.
pub open spec fn next_number(n: u64) -> u64 {
    if n == u64::MAX {
        n
    } else {
        (n + 1) as u64
    }
}

impl BeginFrameModel {
    /// The state before any opportunity.
    pub open spec fn initial() -> Self {
        BeginFrameModel { phase: BeginFrameSchedulerPhase::Idle, pending: None, next_sequence: 1 }
    }

    /// `frame` was numbered before `next_sequence`, which stops counting at its maximum.
    pub open spec fn is_numbered(self, frame: BeginFrame) -> bool {
        &&& 1 <= frame.sequence <= self.next_sequence
        &&& frame.sequence == self.next_sequence ==> frame.sequence == u64::MAX
        &&& frame.demand.0 != 0
    }

    /// What holds of every reachable state: frames are numbered in order and have a cause, and an
    /// opportunity is pending only behind an active frame that came before it.
    pub open spec fn wf(self) -> bool {
        &&& self.next_sequence >= 1
        &&& self.phase.frame() matches Some(active) ==> self.is_numbered(active)
        &&& self.pending matches Some(pending) ==> {
            &&& self.is_numbered(pending)
            &&& self.phase.frame() matches Some(active)
            &&& active.sequence <= pending.sequence
            &&& active.sequence == pending.sequence ==> active.sequence == u64::MAX
        }
    }

    /// The frame that an opportunity would become.
    pub open spec fn next_frame(self, demand: FrameDemand, timing: BeginFrameTiming) -> BeginFrame {
        BeginFrame { sequence: self.next_sequence, demand, timing }
    }

    /// The state after an opportunity: it becomes the active frame, or else replaces the pending
    /// one. Without a cause it is ignored.
    pub open spec fn after_begin_frame(
        self,
        demand: FrameDemand,
        timing: BeginFrameTiming,
    ) -> Self {
        let frame = self.next_frame(demand, timing);
        if demand.0 == 0 {
            self
        } else if self.phase is Idle {
            BeginFrameModel {
                phase: BeginFrameSchedulerPhase::InsideBeginFrame(frame),
                pending: self.pending,
                next_sequence: next_number(self.next_sequence),
            }
        } else {
            BeginFrameModel {
                phase: self.phase,
                pending: Some(frame),
                next_sequence: next_number(self.next_sequence),
            }
        }
    }

    /// What the host is told about an opportunity.
    pub open spec fn begin_frame_result(
        self,
        demand: FrameDemand,
        timing: BeginFrameTiming,
    ) -> BeginFrameResult {
        let frame = self.next_frame(demand, timing);
        if demand.0 == 0 {
            BeginFrameResult::Idle
        } else {
            match self.phase.frame() {
                None => BeginFrameResult::Start(frame),
                Some(active) => BeginFrameResult::Coalesced { active, pending: frame },
            }
        }
    }

    /// The state after the deadline of the active frame.
    pub open spec fn after_deadline(self) -> Self {
        match self.phase.frame() {
            None => self,
            Some(frame) => BeginFrameModel {
                phase: BeginFrameSchedulerPhase::InsideDeadline(frame),
                ..self
            },
        }
    }

    /// The state after the active frame is complete.
    pub open spec fn after_finish(self) -> Self {
        BeginFrameModel { phase: BeginFrameSchedulerPhase::Idle, pending: None, ..self }
    }
}

/// A small BeginFrame/deadline state machine.
///
/// This is intentionally narrower than Chromium's full scheduler state machine: it only owns
/// lifecycle and coalescing. Hosts still decide what "render", "commit", or "present" mean. The
/// important invariant is that only one frame can be active at a time; while it is active, later
/// opportunities are coalesced rather than starting overlapping work.
#[derive(Debug)]
pub struct BeginFrameScheduler {
    phase: BeginFrameSchedulerPhase,
    pending: Option<BeginFrame>,
    next_sequence: u64,
}

impl View for BeginFrameScheduler {
    type V = BeginFrameModel;

    closed spec fn view(&self) -> BeginFrameModel {
        BeginFrameModel {
            phase: self.phase,
            pending: self.pending,
            next_sequence: self.next_sequence,
        }
    }
}

impl Clone for BeginFrameScheduler {
    fn clone(&self) -> (r: Self)
        ensures
            r == *self,
    {
        Self { phase: self.phase, pending: self.pending, next_sequence: self.next_sequence }
    }
}

impl Default for BeginFrameScheduler {
    fn default() -> (r: Self)
        ensures
            r@ == BeginFrameModel::initial(),
            r@.wf(),
    {
        Self::new()
    }
}

impl BeginFrameScheduler {
    /// Creates an idle scheduler.
    #[must_use]
    pub fn new() -> (r: Self)
        ensures
            r@ == BeginFrameModel::initial(),
            r@.wf(),
    {
        Self { phase: BeginFrameSchedulerPhase::Idle, pending: None, next_sequence: 1 }
    }

    /// Returns whether a frame is currently inside begin-frame or deadline processing.
    #[must_use]
    pub fn has_active_frame(&self) -> (r: bool)
        ensures
            r == self@.phase.frame() is Some,
    {
        self.active_frame().is_some()
    }

    /// Returns the active frame, if any.
    #[must_use]
    pub fn active_frame(&self) -> (r: Option<BeginFrame>)
        ensures
            r == self@.phase.frame(),
    {
        match self.phase {
            BeginFrameSchedulerPhase::Idle => None,
            BeginFrameSchedulerPhase::InsideBeginFrame(frame) => Some(frame),
            BeginFrameSchedulerPhase::InsideDeadline(frame) => Some(frame),
        }
    }

    /// Returns whether a coalesced begin-frame is waiting behind the active frame.
    #[must_use]
    pub fn has_pending_frame(&self) -> (r: bool)
        ensures
            r == self@.pending is Some,
    {
        self.pending.is_some()
    }

    /// Returns the coalesced begin-frame that waits behind the active frame, if any.
    pub(crate) fn pending_frame(&self) -> (r: Option<BeginFrame>)
        ensures
            r == self@.pending,
    {
        self.pending
    }

    /// Feeds a begin-frame opportunity into the scheduler.
    ///
    /// If another frame is active, this stores only the latest opportunity and returns
    /// [`BeginFrameResult::Coalesced`]. This is the back-pressure point that prevents fixed-rate
    /// displays from starting overlapping render work.
    pub fn begin_frame(&mut self, demand: FrameDemand, timing: BeginFrameTiming) -> (r:
        BeginFrameResult)
        ensures
            r == old(self)@.begin_frame_result(demand, timing),
            final(self)@ == old(self)@.after_begin_frame(demand, timing),
            old(self)@.wf() ==> final(self)@.wf(),
    {
        if demand.is_empty() {
            return BeginFrameResult::Idle;
        }
        let frame = BeginFrame { sequence: self.next_sequence, demand, timing };
        self.next_sequence = self.next_sequence.saturating_add(1);
        match self.active_frame() {
            None => {
                self.phase = BeginFrameSchedulerPhase::InsideBeginFrame(frame);
                BeginFrameResult::Start(frame)
            },
            Some(active) => {
                self.pending = Some(frame);
                BeginFrameResult::Coalesced { active, pending: frame }
            },
        }
    }

    /// Enters the active frame's deadline phase.
    pub fn begin_deadline(&mut self) -> (r: BeginFrameDeadlineResult)
        ensures
            r == match old(self)@.phase.frame() {
                None => BeginFrameDeadlineResult::Idle,
                Some(frame) => BeginFrameDeadlineResult::Commit(frame),
            },
            final(self)@ == old(self)@.after_deadline(),
            old(self)@.wf() ==> final(self)@.wf(),
    {
        match self.active_frame() {
            None => BeginFrameDeadlineResult::Idle,
            Some(frame) => {
                self.phase = BeginFrameSchedulerPhase::InsideDeadline(frame);
                BeginFrameDeadlineResult::Commit(frame)
            },
        }
    }

    /// Marks the active frame complete and returns the latest coalesced frame, if one exists.
    ///
    /// The returned frame is advisory. Hosts with an external display-link source usually wait
    /// for the next real tick before starting it, while synthetic schedulers may choose to post a
    /// task to process it promptly.
    pub fn finish_frame(&mut self) -> (r: Option<BeginFrame>)
        ensures
            r == old(self)@.pending,
            final(self)@ == old(self)@.after_finish(),
            old(self)@.wf() ==> final(self)@.wf(),
    {
        self.phase = BeginFrameSchedulerPhase::Idle;
        self.pending.take()
    }

    /// Drops the coalesced pending frame, if any.
    pub fn clear_pending_frame(&mut self)
        ensures
            final(self)@ == (BeginFrameModel { pending: None, ..old(self)@ }),
            old(self)@.wf() ==> final(self)@.wf(),
    {
        self.pending = None;
    }

    /// Clears active and pending state.
    pub fn reset(&mut self)
        ensures
            final(self)@ == old(self)@.after_finish(),
            old(self)@.wf() ==> final(self)@.wf(),
    {
        self.phase = BeginFrameSchedulerPhase::Idle;
        self.pending = None;
    }
}

/// While a frame is active it stays the only active one: every opportunity that has a cause is
/// coalesced behind it, without starting work.
pub proof fn law_only_one_frame_is_active(
    state: BeginFrameModel,
    active: BeginFrame,
    demand: FrameDemand,
    timing: BeginFrameTiming,
)
    requires
        state.phase.frame() == Some(active),
    ensures
        state.after_begin_frame(demand, timing).phase == state.phase,
        !(state.begin_frame_result(demand, timing) is Start),
        demand.0 != 0 ==> state.begin_frame_result(demand, timing) == (BeginFrameResult::Coalesced {
            active,
            pending: state.next_frame(demand, timing),
        }),
{
}

/// Of the opportunities that arrive during a frame only the latest is kept: once the frame is
/// finished, it is the one handed back, and nothing is left behind.
pub proof fn law_only_the_latest_opportunity_is_kept(
    state: BeginFrameModel,
    first: FrameDemand,
    first_timing: BeginFrameTiming,
    second: FrameDemand,
    second_timing: BeginFrameTiming,
)
    requires
        state.phase.frame() is Some,
        second.0 != 0,
    ensures
        ({
            let earlier = state.after_begin_frame(first, first_timing);
            let later = earlier.after_begin_frame(second, second_timing);
            &&& later.pending == Some(earlier.next_frame(second, second_timing))
            &&& later.phase == state.phase
            &&& later.after_finish().pending is None
            &&& later.after_finish().phase is Idle
        }),
{
}

/// Sequence numbers are monotonic: each opportunity that has a cause gets a larger one than those
/// before it, until they reach the maximum.
pub proof fn law_sequence_numbers_increase(
    state: BeginFrameModel,
    first: FrameDemand,
    first_timing: BeginFrameTiming,
    second: FrameDemand,
    second_timing: BeginFrameTiming,
)
    requires
        first.0 != 0,
        state.next_sequence < u64::MAX,
    ensures
        ({
            let earlier = state.next_frame(first, first_timing);
            let later = state.after_begin_frame(first, first_timing).next_frame(
                second,
                second_timing,
            );
            earlier.sequence < later.sequence
        }),
{
}

/// The deadline is entered once: entering it again changes nothing, and neither the frame nor what
/// is pending behind it is lost.
pub proof fn law_deadline_is_idempotent(state: BeginFrameModel)
    ensures
        state.after_deadline().after_deadline() == state.after_deadline(),
        state.after_deadline().phase.frame() == state.phase.frame(),
        state.after_deadline().pending == state.pending,
{
}

/// A frame is its opportunity. The frame that is started or retained for an opportunity carries
/// that opportunity's own timing in every field, exactly the demand that was given, and the next
/// number; what the host is told is what the scheduler keeps.
pub proof fn law_frames_carry_their_opportunity(
    state: BeginFrameModel,
    demand: FrameDemand,
    timing: BeginFrameTiming,
)
    requires
        demand.0 != 0,
    ensures
        ({
            let after = state.after_begin_frame(demand, timing);
            let told = match state.begin_frame_result(demand, timing) {
                BeginFrameResult::Start(frame) => frame,
                BeginFrameResult::Coalesced { pending, .. } => pending,
                BeginFrameResult::Idle => arbitrary(),
            };
            &&& !(state.begin_frame_result(demand, timing) is Idle)
            &&& told.timing.now == timing.now
            &&& told.timing.frame_time == timing.frame_time
            &&& told.timing.deadline == timing.deadline
            &&& told.timing.interval == timing.interval
            &&& told.demand == demand
            &&& told.sequence == state.next_sequence
            &&& state.next_sequence < u64::MAX ==> after.next_sequence == state.next_sequence + 1
            &&& match state.phase {
                BeginFrameSchedulerPhase::Idle => {
                    &&& state.begin_frame_result(demand, timing) is Start
                    &&& after.phase == BeginFrameSchedulerPhase::InsideBeginFrame(told)
                    &&& after.pending == state.pending
                },
                BeginFrameSchedulerPhase::InsideBeginFrame(active)
                | BeginFrameSchedulerPhase::InsideDeadline(active) => {
                    &&& state.begin_frame_result(demand, timing) == (BeginFrameResult::Coalesced {
                        active,
                        pending: told,
                    })
                    &&& after.phase == state.phase
                    &&& after.pending == Some(told)
                },
            }
        }),
{
}

/// An opportunity without demand leaves no trace.
pub proof fn law_opportunities_without_demand_leave_no_trace(
    state: BeginFrameModel,
    timing: BeginFrameTiming,
)
    ensures
        state.begin_frame_result(FrameDemand(0), timing) is Idle,
        state.after_begin_frame(FrameDemand(0), timing) == state,
{
}

/// The deadline and the end of a frame change where the scheduler is, and nothing about the frames:
/// the deadline keeps the active frame as it started, and the end forgets it and what waits behind
/// it. The numbering goes on.
pub proof fn law_deadline_and_end_keep_the_frames_as_they_were(
    state: BeginFrameModel,
    frame: BeginFrame,
)
    ensures
        state.phase == BeginFrameSchedulerPhase::InsideBeginFrame(frame) || state.phase
            == BeginFrameSchedulerPhase::InsideDeadline(frame) ==> {
            &&& state.phase.frame() == Some(frame)
            &&& state.after_deadline().phase == BeginFrameSchedulerPhase::InsideDeadline(frame)
        },
        state.phase is Idle ==> state.phase.frame() is None && state.after_deadline() == state,
        state.after_deadline().pending == state.pending,
        state.after_deadline().next_sequence == state.next_sequence,
        state.after_finish().phase is Idle,
        state.after_finish().pending is None,
        state.after_finish().next_sequence == state.next_sequence,
        BeginFrameModel::initial().phase is Idle,
        BeginFrameModel::initial().pending is None,
        BeginFrameModel::initial().next_sequence == 1,
{
}

} // verus!
