//! The stateful frame pacer.

use understory::demand::FrameDemand;
use understory::display::DisplayTiming;
use understory::pacer::{Action, FramePacer, FramePhaseReport, FramePlan};
use understory::plan::{FrameTimingEstimate, Presentation};
use understory::time::{Duration, Time};

fn action_plan(pacer: &mut FramePacer, action: Action) -> FramePlan {
    match action {
        Action::StartPreSurfaceWork(plan)
        | Action::AcquireSurface(plan)
        | Action::Present { plan, .. } => plan,
        Action::SleepUntil(time) => {
            let action = pacer.next_action(time);
            action_plan(pacer, action)
        }
        Action::Idle => panic!("expected frame action"),
    }
}

#[test]
fn fixed_rate_slow_work_starts_earliest_feasible_slot() {
    let display = DisplayTiming::fixed(Duration::from_hz(60));
    let mut pacer = FramePacer::new(display);
    pacer.set_estimate(FrameTimingEstimate {
        pre_surface_work: Duration::from_millis(8),
        surface_work: Duration::from_millis(6),
        gpu_work: Duration::from_millis(9),
        safety_margin: Duration::from_millis(1),
    });
    pacer.request_frame(FrameDemand::animation(), Time::zero());
    let action = pacer.next_action(Time::zero());
    let plan = action_plan(&mut pacer, action);
    assert_eq!(plan.frame_interval, Duration::from_hz(60));
    assert_eq!(plan.target_present_time, Time::from_nanos(33_333_332));
    assert_eq!(plan.pre_surface_work_start, Time::from_nanos(9_333_332));
}

#[test]
fn variable_rate_without_granularity_uses_fastest_source_divisors() {
    let display = DisplayTiming::variable(Duration::from_hz(120), Duration::from_hz(40), None);
    let mut pacer = FramePacer::new(display);
    pacer.set_estimate(FrameTimingEstimate {
        pre_surface_work: Duration::from_millis(3),
        surface_work: Duration::from_millis(2),
        gpu_work: Duration::from_millis(6),
        safety_margin: Duration::from_millis(1),
    });
    pacer.request_frame(FrameDemand::animation(), Time::zero());
    let action = pacer.next_action(Time::zero());
    let plan = action_plan(&mut pacer, action);
    assert_eq!(
        plan.frame_interval,
        Duration::from_hz(120).saturating_mul(2)
    );
}

#[test]
fn phase_estimate_jumps_up_to_slower_observation() {
    let mut pacer = FramePacer::new(DisplayTiming::fixed(Duration::from_hz(60)));
    pacer.set_estimate(FrameTimingEstimate {
        pre_surface_work: Duration::from_millis(2),
        surface_work: Duration::from_millis(2),
        gpu_work: Duration::from_millis(2),
        safety_margin: Duration::zero(),
    });
    pacer.request_frame(FrameDemand::animation(), Time::zero());
    let action = pacer.next_action(Time::zero());
    let plan = action_plan(&mut pacer, action);

    pacer.report_phase(FramePhaseReport::pre_surface_work(
        plan.id,
        Time::zero(),
        Time::zero() + Duration::from_millis(9),
    ));

    assert_eq!(pacer.estimate().pre_surface_work, Duration::from_millis(9));
}

#[test]
fn phase_estimate_decays_slowly_after_faster_observation() {
    let mut pacer = FramePacer::new(DisplayTiming::fixed(Duration::from_hz(60)));
    pacer.set_estimate(FrameTimingEstimate {
        pre_surface_work: Duration::from_millis(8),
        surface_work: Duration::from_millis(2),
        gpu_work: Duration::from_millis(2),
        safety_margin: Duration::zero(),
    });
    pacer.request_frame(FrameDemand::animation(), Time::zero());
    let action = pacer.next_action(Time::zero());
    let plan = action_plan(&mut pacer, action);

    pacer.report_phase(FramePhaseReport::pre_surface_work(
        plan.id,
        Time::zero(),
        Time::zero() + Duration::zero(),
    ));

    assert_eq!(pacer.estimate().pre_surface_work, Duration::from_millis(7));
}

#[test]
fn input_presents_as_soon_as_ready() {
    let mut pacer = FramePacer::new(DisplayTiming::fixed(Duration::from_hz(60)));
    pacer.request_frame(FrameDemand::input(), Time::zero());
    let action = pacer.next_action(Time::zero());
    let plan = action_plan(&mut pacer, action);
    pacer.report_phase(FramePhaseReport::pre_surface_work(
        plan.id,
        Time::zero(),
        Time::zero() + Duration::from_millis(2),
    ));
    let acquire_at = match pacer.next_action(Time::zero()) {
        Action::SleepUntil(t) => t,
        other => panic!("expected sleep, got {other:?}"),
    };
    let _ = pacer.next_action(acquire_at);
    pacer.report_phase(FramePhaseReport::surface_work(
        plan.id,
        acquire_at,
        acquire_at + Duration::from_millis(2),
    ));
    let present = pacer.next_action(acquire_at + Duration::from_millis(2));
    assert!(matches!(
        present,
        Action::Present {
            presentation: Presentation::AsSoonAsReady,
            ..
        }
    ));
}

#[test]
fn surface_acquisition_is_delayed_until_surface_work_window() {
    let mut pacer = FramePacer::new(DisplayTiming::fixed(Duration::from_hz(60)));
    pacer.set_estimate(FrameTimingEstimate {
        pre_surface_work: Duration::from_millis(2),
        surface_work: Duration::from_millis(1),
        gpu_work: Duration::from_millis(1),
        safety_margin: Duration::from_millis(1),
    });
    pacer.request_frame(FrameDemand::animation(), Time::zero());
    let action = pacer.next_action(Time::zero());
    let plan = action_plan(&mut pacer, action);
    pacer.report_phase(FramePhaseReport::pre_surface_work(
        plan.id,
        Time::zero(),
        Time::zero() + Duration::from_millis(2),
    ));
    assert_eq!(
        pacer.next_action(Time::zero() + Duration::from_millis(2)),
        Action::SleepUntil(plan.acquire_surface_at)
    );
}

#[test]
fn animation_on_fixed_display_uses_minimum_duration_present() {
    let mut pacer = FramePacer::new(DisplayTiming::fixed(Duration::from_hz(60)));
    pacer.request_frame(FrameDemand::animation(), Time::zero());
    let action = pacer.next_action(Time::zero());
    let plan = action_plan(&mut pacer, action);
    pacer.report_phase(FramePhaseReport::pre_surface_work(
        plan.id,
        plan.pre_surface_work_start,
        plan.acquire_surface_at,
    ));
    let _ = pacer.next_action(plan.acquire_surface_at);
    pacer.report_phase(FramePhaseReport::surface_work(
        plan.id,
        plan.acquire_surface_at,
        plan.submit_deadline,
    ));
    let action = pacer.next_action(plan.submit_deadline);
    assert!(matches!(
        action,
        Action::Present {
            presentation: Presentation::AfterMinimumDuration(_),
            ..
        }
    ));
}

fn pacer_60hz() -> FramePacer {
    FramePacer::new(DisplayTiming::fixed(Duration::from_hz(60)))
}

#[test]
fn an_idle_pacer_has_nothing_to_do() {
    let mut pacer = pacer_60hz();
    assert_eq!(pacer.next_action(Time(7)), Action::Idle);
    assert_eq!(pacer.active_frame_id(), None);
    assert_eq!(pacer.estimate(), FrameTimingEstimate::default());
    assert_eq!(Action::Idle.frame_id(), None);
    assert_eq!(Action::SleepUntil(Time(1)).frame_id(), None);
    assert!(!Action::Idle.is_start_pre_surface_work());
}

#[test]
fn sleeping_hosts_wake_up_to_work() {
    let mut pacer = pacer_60hz();
    pacer.set_estimate(FrameTimingEstimate {
        pre_surface_work: Duration::from_millis(4),
        surface_work: Duration::from_millis(2),
        gpu_work: Duration::from_millis(7),
        safety_margin: Duration::from_millis(1),
    });
    let now = Time::from_nanos(1_000_000_000);
    pacer.request_frame(FrameDemand::animation(), now);

    let mut action = pacer.next_action(now);
    let wake_at = match action {
        Action::SleepUntil(wake_at) => wake_at,
        other => panic!("expected sleep, got {other:?}"),
    };
    assert_eq!(wake_at, Time(1_000_000_000 + 16_666_666 - 14_000_000));
    assert_eq!(pacer.next_action(now), action);
    action = pacer.next_action(wake_at);
    assert!(action.is_start_pre_surface_work());
    let id = action.frame_id().unwrap();
    assert_eq!(id.get(), 1);
    assert_eq!(pacer.active_frame_id(), Some(id));
    pacer.report_phase(FramePhaseReport::pre_surface_work(
        id,
        now,
        now + Duration::from_millis(4),
    ));
    assert_eq!(
        pacer.next_action(now),
        Action::SleepUntil(Time(1_000_000_000 + 16_666_666 - 10_000_000))
    );
}

/// Runs a frame up to its present action.
fn run_to_present(pacer: &mut FramePacer) -> (FramePlan, Presentation) {
    let late = Time(i64::MAX);
    let plan = match pacer.next_action(late) {
        Action::StartPreSurfaceWork(plan) => plan,
        other => panic!("expected start, got {other:?}"),
    };
    assert_eq!(pacer.next_action(late), Action::Idle);
    pacer.report_phase(FramePhaseReport::pre_surface_work(plan.id, late, late));
    assert_eq!(pacer.next_action(late), Action::AcquireSurface(plan));
    assert_eq!(pacer.next_action(late), Action::Idle);
    pacer.report_phase(FramePhaseReport::surface_work(plan.id, late, late));
    match pacer.next_action(Time(0)) {
        Action::Present { plan, presentation } => (plan, presentation),
        other => panic!("expected present, got {other:?}"),
    }
}

#[test]
fn a_frame_goes_through_its_phases() {
    let mut pacer = pacer_60hz();
    pacer.request_frame(FrameDemand::background(), Time(0));
    pacer.request_frame(FrameDemand::animation(), Time(0));
    assert!(matches!(pacer.next_action(Time(0)), Action::SleepUntil(_)));
    let (plan, presentation) = run_to_present(&mut pacer);
    assert_eq!(
        plan.demand,
        FrameDemand::animation() | FrameDemand::background()
    );
    assert_eq!(
        presentation,
        Presentation::AfterMinimumDuration(Duration::from_hz(60))
    );
    assert!(plan.pre_surface_work_start <= plan.acquire_surface_at);
    assert!(plan.acquire_surface_at <= plan.submit_deadline);
    assert!(plan.submit_deadline <= plan.target_present_time);
    pacer.report_presented(plan.id, Time(20_000_000));
    assert_eq!(pacer.active_frame_id(), None);
    assert_eq!(pacer.next_action(Time(20_000_000)), Action::Idle);
}

#[test]
fn continuous_input_presents_at_once_at_the_fastest_interval() {
    let mut pacer = pacer_60hz();
    pacer.request_frame(FrameDemand::continuous_input(), Time(0));
    assert!(matches!(pacer.next_action(Time(0)), Action::SleepUntil(_)));
    let (plan, presentation) = run_to_present(&mut pacer);
    assert_eq!(plan.frame_interval, Duration::from_hz(60));
    assert_eq!(presentation, Presentation::AsSoonAsReady);
    pacer.set_display_timing(DisplayTiming::fixed(Duration::from_hz(120)));
    assert_eq!(
        pacer.next_action(Time(0)),
        Action::Present {
            plan,
            presentation: Presentation::AfterMinimumDuration(Duration::from_hz(60)),
        }
    );
}

#[test]
fn stale_reports_change_nothing() {
    let mut pacer = pacer_60hz();
    pacer.request_frame(FrameDemand::input(), Time(0));
    let _ = pacer.next_action(Time(0));
    let old = pacer.active_frame_id().unwrap();
    pacer.drop_active_frame();
    assert_eq!(pacer.active_frame_id(), None);

    let before = pacer.estimate();
    let long = Time(900_000_000);
    pacer.report_phase(FramePhaseReport::gpu_work(old, Time(0), long));
    assert_eq!(pacer.estimate(), before);

    pacer.request_frame(FrameDemand::input(), Time(0));
    let _ = pacer.next_action(Time(0));
    let current = pacer.active_frame_id().unwrap();
    assert_eq!(current.get(), old.get() + 1);
    pacer.report_phase(FramePhaseReport::gpu_work(old, Time(0), long));
    pacer.report_presented(old, long);
    assert_eq!(pacer.estimate(), before);
    assert_eq!(pacer.active_frame_id(), Some(current));

    pacer.report_phase(FramePhaseReport::gpu_work(current, Time(0), long));
    assert_eq!(pacer.estimate().gpu_work, Duration(900_000_000));
}

#[test]
fn estimates_decay_by_an_eighth() {
    let mut pacer = pacer_60hz();
    pacer.set_estimate(FrameTimingEstimate {
        pre_surface_work: Duration(800),
        surface_work: Duration(0),
        gpu_work: Duration(1_000),
        safety_margin: Duration(0),
    });
    pacer.request_frame(FrameDemand::input(), Time(0));
    let id = action_plan_id(&mut pacer);
    pacer.report_phase(FramePhaseReport::pre_surface_work(id, Time(0), Time(0)));
    assert_eq!(pacer.estimate().pre_surface_work, Duration(700));
    pacer.report_phase(FramePhaseReport::gpu_work(id, Time(0), Time(993)));
    assert_eq!(pacer.estimate().gpu_work, Duration(999));
    // A phase that ends before it starts took no time.
    pacer.report_phase(FramePhaseReport::gpu_work(id, Time(500), Time(0)));
    assert_eq!(pacer.estimate().gpu_work, Duration(874));
}

fn action_plan_id(pacer: &mut FramePacer) -> understory::pacer::FrameId {
    let action = pacer.next_action(Time(0));
    action_plan(pacer, action).id
}

#[test]
fn requests_during_a_frame_are_served_by_the_next_one() {
    let mut pacer = pacer_60hz();
    pacer.request_frame(FrameDemand::animation(), Time(0));
    let _ = pacer.next_action(Time(0));
    let first = pacer.active_frame_id().unwrap();
    pacer.request_frame(FrameDemand::background(), Time(3));
    pacer.request_frame(FrameDemand::input(), Time(1));
    assert_eq!(pacer.active_frame_id(), Some(first));
    let mut dropped = pacer.clone();
    pacer.report_presented(first, Time(9));
    dropped.drop_active_frame();
    for pacer in [&mut pacer, &mut dropped] {
        let action = pacer.next_action(Time(10));
        let plan = action_plan(pacer, action);
        assert_eq!(plan.demand, FrameDemand::input() | FrameDemand::background());
        assert_eq!(plan.id.get(), 2);
        // The dropped or presented frame's own demand is not served again.
        pacer.drop_active_frame();
        assert_eq!(pacer.next_action(Time(11)), Action::Idle);
    }
}
