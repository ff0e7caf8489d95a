//! The begin-frame lifecycle.

use understory::begin_frame::{
    BeginFrameDeadlineResult, BeginFrameResult, BeginFrameScheduler, BeginFrameTiming,
};
use understory::demand::FrameDemand;
use understory::time::{Duration, Time};

const TEST_75HZ_INTERVAL_NS: u64 = 13_333_333;

fn begin_timing(now: i64) -> BeginFrameTiming {
    BeginFrameTiming {
        now: Time::from_nanos(now),
        frame_time: Time::from_nanos(now),
        deadline: Time::from_nanos(now + TEST_75HZ_INTERVAL_NS as i64),
        interval: Duration::from_nanos(TEST_75HZ_INTERVAL_NS),
    }
}

#[test]
fn begin_frame_scheduler_coalesces_while_active() {
    let mut scheduler = BeginFrameScheduler::new();
    let first = match scheduler.begin_frame(FrameDemand::animation(), begin_timing(0)) {
        BeginFrameResult::Start(frame) => frame,
        other => panic!("expected start, got {other:?}"),
    };

    let second = match scheduler.begin_frame(FrameDemand::continuous_input(), begin_timing(1)) {
        BeginFrameResult::Coalesced { active, pending } => {
            assert_eq!(active, first);
            pending
        }
        other => panic!("expected coalesced frame, got {other:?}"),
    };

    assert_eq!(scheduler.active_frame(), Some(first));
    assert_eq!(scheduler.finish_frame(), Some(second));
    assert!(!scheduler.has_active_frame());
    assert!(!scheduler.has_pending_frame());
}

#[test]
fn begin_frame_scheduler_enters_deadline_once_active() {
    let mut scheduler = BeginFrameScheduler::new();
    let frame = match scheduler.begin_frame(FrameDemand::animation(), begin_timing(0)) {
        BeginFrameResult::Start(frame) => frame,
        other => panic!("expected start, got {other:?}"),
    };

    assert_eq!(
        scheduler.begin_deadline(),
        BeginFrameDeadlineResult::Commit(frame)
    );
    assert_eq!(
        scheduler.begin_deadline(),
        BeginFrameDeadlineResult::Commit(frame)
    );
    assert_eq!(scheduler.finish_frame(), None);
    assert_eq!(scheduler.begin_deadline(), BeginFrameDeadlineResult::Idle);
}

fn started(scheduler: &mut BeginFrameScheduler, now: i64) -> u64 {
    match scheduler.begin_frame(FrameDemand::animation(), begin_timing(now)) {
        BeginFrameResult::Start(frame) => frame.sequence,
        other => panic!("expected start, got {other:?}"),
    }
}

#[test]
fn opportunities_without_demand_are_ignored() {
    let mut scheduler = BeginFrameScheduler::default();
    assert_eq!(
        scheduler.begin_frame(FrameDemand::none(), begin_timing(0)),
        BeginFrameResult::Idle
    );
    assert!(!scheduler.has_active_frame());
    assert_eq!(scheduler.active_frame(), None);
    assert_eq!(started(&mut scheduler, 1), 1);
}

#[test]
fn only_the_latest_opportunity_waits() {
    let mut scheduler = BeginFrameScheduler::new();
    assert_eq!(started(&mut scheduler, 0), 1);
    for now in 1..4 {
        let result = scheduler.begin_frame(FrameDemand::input(), begin_timing(now));
        assert!(matches!(result, BeginFrameResult::Coalesced { .. }));
    }
    assert!(scheduler.has_pending_frame());
    assert_eq!(scheduler.active_frame().unwrap().sequence, 1);
    let waiting = scheduler.finish_frame().unwrap();
    assert_eq!(waiting.sequence, 4);
    assert_eq!(waiting.timing, begin_timing(3));
    assert!(!scheduler.has_pending_frame());
    assert_eq!(started(&mut scheduler, 9), 5);
}

#[test]
fn clearing_and_resetting_forget_frames_but_not_the_numbering() {
    let mut scheduler = BeginFrameScheduler::new();
    started(&mut scheduler, 0);
    let _ = scheduler.begin_frame(FrameDemand::input(), begin_timing(1));
    scheduler.clear_pending_frame();
    assert!(!scheduler.has_pending_frame());
    assert!(scheduler.has_active_frame());
    scheduler.reset();
    assert!(!scheduler.has_active_frame());
    assert_eq!(scheduler.finish_frame(), None);
    assert_eq!(started(&mut scheduler, 2), 3);
}
