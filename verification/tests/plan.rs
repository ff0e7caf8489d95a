//! Stateless pacing decisions.

use understory::demand::FrameDemand;
use understory::display::DisplayTiming;
use understory::plan::{plan_frame, FrameOpportunity, FrameTimingEstimate, Presentation};
use understory::time::{Duration, Time};

fn estimate_ms(pre: u64, surface: u64, gpu: u64, safety: u64) -> FrameTimingEstimate {
    FrameTimingEstimate {
        pre_surface_work: Duration::from_millis(pre),
        surface_work: Duration::from_millis(surface),
        gpu_work: Duration::from_millis(gpu),
        safety_margin: Duration::from_millis(safety),
    }
}

#[test]
fn chromium_style_begin_frame_keeps_authoritative_interval_when_tick_arrives_late() {
    // Chromium's scheduler reports the interval carried by BeginFrameArgs,
    // not the wall-clock gap between delivery callbacks. A late tick must
    // not make fixed-rate pacing infer a slower display.
    let interval_120hz = Duration::from_nanos(8_333_333);
    let late_arrival = Duration::from_millis(4);
    let decision = plan_frame(
        DisplayTiming::fixed(interval_120hz),
        estimate_ms(1, 1, 1, 1),
        FrameDemand::animation(),
        FrameOpportunity {
            now: Time::zero() + interval_120hz + late_arrival,
            predicted_present_time: Some(Time::zero() + interval_120hz.saturating_mul(2)),
            frame_interval: Some(interval_120hz),
            last_present_time: Some(Time::zero()),
            pending_target_present_time: None,
        },
    );

    assert_eq!(decision.frame_interval, interval_120hz);
    assert_eq!(
        decision.target_present_time,
        Time::zero() + interval_120hz.saturating_mul(2)
    );
}

#[test]
fn chromium_style_begin_frame_interval_change_is_used_on_next_opportunity() {
    let interval_120hz = Duration::from_nanos(8_333_333);
    let interval_90hz = Duration::from_nanos(11_111_111);
    let estimate = estimate_ms(1, 1, 1, 1);

    let first = plan_frame(
        DisplayTiming::fixed(interval_120hz),
        estimate,
        FrameDemand::animation(),
        FrameOpportunity {
            now: Time::zero(),
            predicted_present_time: Some(Time::zero() + interval_120hz),
            frame_interval: Some(interval_120hz),
            last_present_time: None,
            pending_target_present_time: None,
        },
    );
    let second = plan_frame(
        DisplayTiming::fixed(interval_90hz),
        estimate,
        FrameDemand::animation(),
        FrameOpportunity {
            now: first.target_present_time,
            predicted_present_time: Some(first.target_present_time + interval_90hz),
            frame_interval: Some(interval_90hz),
            last_present_time: Some(first.target_present_time),
            pending_target_present_time: None,
        },
    );

    assert_eq!(first.frame_interval, interval_120hz);
    assert_eq!(second.frame_interval, interval_90hz);
}

#[test]
fn chromium_style_zero_begin_frame_interval_falls_back_to_display_timing() {
    // Chromium ignores a zero BeginFrame interval for client interval
    // updates. Understory should likewise use the display timing supplied by
    // the host instead of accepting zero as a real cadence.
    let interval_90hz = Duration::from_nanos(11_111_111);
    let decision = plan_frame(
        DisplayTiming::fixed(interval_90hz),
        estimate_ms(1, 1, 1, 1),
        FrameDemand::animation(),
        FrameOpportunity {
            now: Time::zero(),
            predicted_present_time: Some(Time::zero() + interval_90hz),
            frame_interval: Some(Duration::zero()),
            last_present_time: None,
            pending_target_present_time: None,
        },
    );

    assert_eq!(decision.frame_interval, interval_90hz);
    assert_eq!(decision.target_present_time, Time::zero() + interval_90hz);
}

#[test]
fn stateless_plan_slow_fixed_animation_keeps_current_opportunity() {
    let decision = plan_frame(
        DisplayTiming::fixed(Duration::from_hz(75)),
        FrameTimingEstimate {
            pre_surface_work: Duration::from_millis(9),
            surface_work: Duration::from_millis(2),
            gpu_work: Duration::from_millis(2),
            safety_margin: Duration::from_millis(1),
        },
        FrameDemand::animation(),
        FrameOpportunity {
            now: Time::zero(),
            predicted_present_time: Some(Time::from_nanos(13_333_333)),
            frame_interval: Some(Duration::from_nanos(13_333_333)),
            last_present_time: None,
            pending_target_present_time: None,
        },
    );

    assert_eq!(decision.frame_interval, Duration::from_nanos(13_333_333));
    assert_eq!(decision.target_present_time, Time::from_nanos(26_666_666));
    assert_eq!(
        decision.pre_surface_work_start,
        Time::from_nanos(12_666_666)
    );
    assert!(matches!(
        decision.presentation,
        Presentation::AfterMinimumDuration(Duration(13_333_333))
    ));
}

#[test]
fn stateless_plan_keeps_slow_fixed_input_asap() {
    let decision = plan_frame(
        DisplayTiming::fixed(Duration::from_hz(75)),
        FrameTimingEstimate {
            pre_surface_work: Duration::from_millis(9),
            surface_work: Duration::from_millis(2),
            gpu_work: Duration::from_millis(2),
            safety_margin: Duration::from_millis(1),
        },
        FrameDemand::input(),
        FrameOpportunity {
            now: Time::zero(),
            predicted_present_time: Some(Time::from_nanos(13_333_333)),
            frame_interval: Some(Duration::from_nanos(13_333_333)),
            last_present_time: None,
            pending_target_present_time: None,
        },
    );

    assert_eq!(decision.frame_interval, Duration::from_nanos(13_333_333));
    assert_eq!(decision.target_present_time, Time::from_nanos(14_000_000));
    assert!(matches!(decision.presentation, Presentation::AsSoonAsReady));
}

#[test]
fn stateless_plan_slow_fixed_continuous_input_keeps_current_opportunity() {
    let decision = plan_frame(
        DisplayTiming::fixed(Duration::from_hz(75)),
        FrameTimingEstimate {
            pre_surface_work: Duration::from_millis(9),
            surface_work: Duration::from_millis(2),
            gpu_work: Duration::from_millis(2),
            safety_margin: Duration::from_millis(1),
        },
        FrameDemand::continuous_input(),
        FrameOpportunity {
            now: Time::zero(),
            predicted_present_time: Some(Time::from_nanos(13_333_333)),
            frame_interval: Some(Duration::from_nanos(13_333_333)),
            last_present_time: None,
            pending_target_present_time: None,
        },
    );

    assert_eq!(decision.frame_interval, Duration::from_nanos(13_333_333));
    assert_eq!(decision.target_present_time, Time::from_nanos(26_666_666));
    assert_eq!(
        decision.pre_surface_work_start,
        Time::from_nanos(12_666_666)
    );
    assert!(matches!(decision.presentation, Presentation::AsSoonAsReady));
}

#[test]
fn stateless_plan_continuous_input_does_not_reuse_pending_animation_target() {
    let decision = plan_frame(
        DisplayTiming::fixed(Duration::from_hz(75)),
        FrameTimingEstimate {
            pre_surface_work: Duration::from_millis(9),
            surface_work: Duration::from_millis(2),
            gpu_work: Duration::from_millis(2),
            safety_margin: Duration::from_millis(1),
        },
        FrameDemand::continuous_input(),
        FrameOpportunity {
            now: Time::from_nanos(20_000_000),
            predicted_present_time: Some(Time::from_nanos(26_666_666)),
            frame_interval: Some(Duration::from_nanos(13_333_333)),
            last_present_time: None,
            pending_target_present_time: Some(Time::from_nanos(40_000_000)),
        },
    );

    assert_eq!(decision.target_present_time, Time::from_nanos(39_999_999));
}

#[test]
fn stateless_plan_keeps_light_fixed_input_asap() {
    let decision = plan_frame(
        DisplayTiming::fixed(Duration::from_hz(75)),
        FrameTimingEstimate {
            pre_surface_work: Duration::from_millis(4),
            surface_work: Duration::from_millis(1),
            gpu_work: Duration::from_millis(1),
            safety_margin: Duration::from_millis(1),
        },
        FrameDemand::input(),
        FrameOpportunity {
            now: Time::zero(),
            predicted_present_time: Some(Time::from_nanos(13_333_333)),
            frame_interval: Some(Duration::from_nanos(13_333_333)),
            last_present_time: None,
            pending_target_present_time: None,
        },
    );

    assert_eq!(decision.frame_interval, Duration::from_nanos(13_333_333));
    assert_eq!(decision.target_present_time, Time::from_nanos(13_333_333));
    assert!(matches!(decision.presentation, Presentation::AsSoonAsReady));
}

#[test]
fn stateless_plan_late_starts_light_fixed_animation_from_predicted_present() {
    let decision = plan_frame(
        DisplayTiming::fixed(Duration::from_hz(75)),
        FrameTimingEstimate {
            pre_surface_work: Duration::from_micros(500),
            surface_work: Duration::zero(),
            gpu_work: Duration::zero(),
            safety_margin: Duration::from_millis(1),
        },
        FrameDemand::animation(),
        FrameOpportunity {
            now: Time::zero(),
            predicted_present_time: Some(Time::from_nanos(13_333_333)),
            frame_interval: Some(Duration::from_nanos(13_333_333)),
            last_present_time: None,
            pending_target_present_time: None,
        },
    );

    assert_eq!(decision.target_present_time, Time::from_nanos(13_333_333));
    assert_eq!(
        decision.pre_surface_work_start,
        Time::from_nanos(11_833_333)
    );
    assert!(matches!(
        decision.presentation,
        Presentation::AfterMinimumDuration(Duration(13_333_333))
    ));
}

#[test]
fn stateless_plan_late_starts_light_fixed_continuous_input_from_predicted_present() {
    let decision = plan_frame(
        DisplayTiming::fixed(Duration::from_hz(75)),
        FrameTimingEstimate {
            pre_surface_work: Duration::from_micros(500),
            surface_work: Duration::zero(),
            gpu_work: Duration::zero(),
            safety_margin: Duration::from_millis(1),
        },
        FrameDemand::continuous_input(),
        FrameOpportunity {
            now: Time::zero(),
            predicted_present_time: Some(Time::from_nanos(13_333_333)),
            frame_interval: Some(Duration::from_nanos(13_333_333)),
            last_present_time: None,
            pending_target_present_time: None,
        },
    );

    assert_eq!(decision.target_present_time, Time::from_nanos(13_333_333));
    assert_eq!(
        decision.pre_surface_work_start,
        Time::from_nanos(11_833_333)
    );
    assert!(matches!(decision.presentation, Presentation::AsSoonAsReady));
}

#[test]
fn stateless_plan_rolls_smooth_work_past_too_close_prediction() {
    let decision = plan_frame(
        DisplayTiming::fixed(Duration::from_hz(75)),
        FrameTimingEstimate {
            pre_surface_work: Duration::from_micros(500),
            surface_work: Duration::zero(),
            gpu_work: Duration::zero(),
            safety_margin: Duration::from_millis(1),
        },
        FrameDemand::continuous_input(),
        FrameOpportunity {
            now: Time::from_nanos(12_500_000),
            predicted_present_time: Some(Time::from_nanos(13_333_333)),
            frame_interval: Some(Duration::from_nanos(13_333_333)),
            last_present_time: None,
            pending_target_present_time: None,
        },
    );

    assert_eq!(decision.target_present_time, Time::from_nanos(26_666_666));
    assert_eq!(
        decision.pre_surface_work_start,
        Time::from_nanos(25_166_666)
    );
    assert!(matches!(decision.presentation, Presentation::AsSoonAsReady));
}

#[test]
fn stateless_plan_larger_fixed_continuous_input_estimate_starts_earlier_not_later() {
    let now = Time::zero();
    let predicted = Time::from_nanos(13_333_333);
    let interval = Duration::from_nanos(13_333_333);
    let light = plan_frame(
        DisplayTiming::fixed(interval),
        FrameTimingEstimate {
            pre_surface_work: Duration::from_millis(2),
            surface_work: Duration::zero(),
            gpu_work: Duration::zero(),
            safety_margin: Duration::from_millis(1),
        },
        FrameDemand::continuous_input(),
        FrameOpportunity {
            now,
            predicted_present_time: Some(predicted),
            frame_interval: Some(interval),
            last_present_time: None,
            pending_target_present_time: None,
        },
    );
    let heavier = plan_frame(
        DisplayTiming::fixed(interval),
        FrameTimingEstimate {
            pre_surface_work: Duration::from_millis(6),
            surface_work: Duration::zero(),
            gpu_work: Duration::zero(),
            safety_margin: Duration::from_millis(1),
        },
        FrameDemand::continuous_input(),
        FrameOpportunity {
            now,
            predicted_present_time: Some(predicted),
            frame_interval: Some(interval),
            last_present_time: None,
            pending_target_present_time: None,
        },
    );

    assert_eq!(light.target_present_time, predicted);
    assert_eq!(heavier.target_present_time, predicted);
    assert!(heavier.pre_surface_work_start < light.pre_surface_work_start);
}

#[test]
fn stateless_plan_keeps_variable_input_asap_even_when_slow() {
    let decision = plan_frame(
        DisplayTiming::variable(Duration::from_hz(75), Duration::from_hz(24), None),
        FrameTimingEstimate {
            pre_surface_work: Duration::from_millis(80),
            surface_work: Duration::from_millis(1),
            gpu_work: Duration::zero(),
            safety_margin: Duration::from_millis(1),
        },
        FrameDemand::input(),
        FrameOpportunity {
            now: Time::zero(),
            predicted_present_time: Some(Time::from_nanos(13_333_333)),
            frame_interval: Some(Duration::from_nanos(13_333_333)),
            last_present_time: None,
            pending_target_present_time: None,
        },
    );

    assert_eq!(decision.frame_interval, Duration::from_nanos(13_333_333));
    assert_eq!(decision.target_present_time, Time::from_nanos(82_000_000));
    assert!(matches!(decision.presentation, Presentation::AsSoonAsReady));
}

#[test]
fn stateless_plan_clamps_stale_prediction_to_now() {
    let decision = plan_frame(
        DisplayTiming::fixed(Duration::from_hz(60)),
        FrameTimingEstimate {
            pre_surface_work: Duration::from_millis(1),
            surface_work: Duration::from_millis(1),
            gpu_work: Duration::from_millis(1),
            safety_margin: Duration::from_millis(1),
        },
        FrameDemand::input(),
        FrameOpportunity {
            now: Time::from_nanos(20_000_000),
            predicted_present_time: Some(Time::from_nanos(10_000_000)),
            frame_interval: Some(Duration::from_nanos(16_666_667)),
            last_present_time: None,
            pending_target_present_time: None,
        },
    );

    assert_eq!(decision.target_present_time, Time::from_nanos(24_000_000));
}

#[test]
fn stateless_plan_replans_infeasible_pending_target() {
    let decision = plan_frame(
        DisplayTiming::fixed(Duration::from_hz(75)),
        FrameTimingEstimate {
            pre_surface_work: Duration::from_millis(9),
            surface_work: Duration::from_millis(2),
            gpu_work: Duration::from_millis(2),
            safety_margin: Duration::from_millis(1),
        },
        FrameDemand::animation(),
        FrameOpportunity {
            now: Time::from_nanos(20_000_000),
            predicted_present_time: Some(Time::from_nanos(26_666_666)),
            frame_interval: Some(Duration::from_nanos(13_333_333)),
            last_present_time: None,
            pending_target_present_time: Some(Time::from_nanos(25_000_000)),
        },
    );

    assert!(decision.target_present_time >= Time::from_nanos(34_000_000));
}

#[test]
fn stateless_plan_replans_pending_target_that_violates_cadence() {
    let decision = plan_frame(
        DisplayTiming::fixed(Duration::from_hz(75)),
        FrameTimingEstimate {
            pre_surface_work: Duration::from_millis(9),
            surface_work: Duration::from_millis(2),
            gpu_work: Duration::from_millis(2),
            safety_margin: Duration::from_millis(1),
        },
        FrameDemand::animation(),
        FrameOpportunity {
            now: Time::from_nanos(20_000_000),
            predicted_present_time: Some(Time::from_nanos(26_666_666)),
            frame_interval: Some(Duration::from_nanos(13_333_333)),
            last_present_time: Some(Time::from_nanos(13_333_333)),
            pending_target_present_time: Some(Time::from_nanos(30_000_000)),
        },
    );

    assert!(decision.target_present_time >= Time::from_nanos(39_999_999));
}

#[test]
fn estimates_add_up() {
    let estimate = estimate_ms(4, 2, 7, 1);
    assert_eq!(estimate.total_work(), Duration::from_millis(14));
    assert_eq!(estimate.surface_to_ready(), Duration::from_millis(10));
    assert_eq!(FrameTimingEstimate::default(), estimate_ms(2, 2, 4, 1));
    let huge = FrameTimingEstimate {
        pre_surface_work: Duration(u64::MAX),
        ..estimate
    };
    assert_eq!(huge.total_work(), Duration(u64::MAX));
}

#[test]
fn opportunities_start_without_prediction() {
    let opportunity = FrameOpportunity::new(Time(5));
    assert_eq!(opportunity.now, Time(5));
    assert_eq!(opportunity.predicted_present_time, None);
    assert_eq!(opportunity.frame_interval, None);
    assert_eq!(opportunity.last_present_time, None);
    assert_eq!(opportunity.pending_target_present_time, None);
}

#[test]
fn slow_animation_on_a_variable_display_keeps_its_pending_target() {
    let decision = plan_frame(
        DisplayTiming::variable(Duration::from_millis(10), Duration::from_millis(40), None),
        estimate_ms(8, 4, 4, 1),
        FrameDemand::animation(),
        FrameOpportunity {
            now: Time::from_nanos(10_000_000),
            predicted_present_time: Some(Time::from_nanos(20_000_000)),
            frame_interval: Some(Duration::from_millis(10)),
            last_present_time: Some(Time::from_nanos(5_000_000)),
            pending_target_present_time: Some(Time::from_nanos(30_000_000)),
        },
    );
    assert_eq!(decision.frame_interval, Duration::from_millis(20));
    assert_eq!(decision.target_present_time, Time::from_nanos(30_000_000));
    assert_eq!(decision.pre_surface_work_start, Time::from_nanos(13_000_000));
    assert_eq!(decision.acquire_surface_at, Time::from_nanos(21_000_000));
    assert_eq!(decision.submit_deadline, Time::from_nanos(26_000_000));
    assert_eq!(
        decision.presentation,
        Presentation::At(Time::from_nanos(30_000_000))
    );
}

#[test]
fn demand_without_a_known_cause_steps_down_on_fixed_displays() {
    let decision = plan_frame(
        DisplayTiming::fixed(Duration::from_millis(10)),
        estimate_ms(8, 4, 4, 1),
        FrameDemand::none(),
        FrameOpportunity::new(Time::zero()),
    );
    assert_eq!(decision.frame_interval, Duration::from_millis(20));
    assert_eq!(decision.target_present_time, Time::from_nanos(20_000_000));
    assert_eq!(
        decision.presentation,
        Presentation::AfterMinimumDuration(Duration::from_millis(20))
    );
}

#[test]
fn phases_of_a_decision_are_in_order() {
    for now in [i64::MIN, -5, 0, 7, i64::MAX] {
        for demand in [
            FrameDemand::input(),
            FrameDemand::continuous_input(),
            FrameDemand::animation(),
            FrameDemand::background(),
        ] {
            let decision = plan_frame(
                DisplayTiming::fixed(Duration::from_hz(60)),
                estimate_ms(8, 4, 4, 1),
                demand,
                FrameOpportunity::new(Time(now)),
            );
            assert!(decision.pre_surface_work_start <= decision.acquire_surface_at);
            assert!(decision.acquire_surface_at <= decision.submit_deadline);
            assert!(decision.submit_deadline <= decision.target_present_time);
            assert!(decision.target_present_time >= Time(now) + Duration::from_millis(17));
        }
    }
}

#[test]
fn a_display_without_an_interval_can_serve_input() {
    let decision = plan_frame(
        DisplayTiming::fixed(Duration::zero()),
        estimate_ms(1, 1, 1, 1),
        FrameDemand::input(),
        FrameOpportunity::new(Time::zero()),
    );
    assert_eq!(decision.target_present_time, Time::from_nanos(4_000_000));
    assert_eq!(decision.presentation, Presentation::AsSoonAsReady);
}

#[test]
fn last_presentation_does_not_shift_the_cadence() {
    let plan_after = |last_present_time: Option<Time>| {
        plan_frame(
            DisplayTiming::variable(Duration::from_millis(10), Duration::from_millis(40), None),
            estimate_ms(8, 4, 4, 1),
            FrameDemand::animation(),
            FrameOpportunity {
                last_present_time,
                ..FrameOpportunity::new(Time::zero())
            },
        )
    };
    let decision = plan_after(None);
    assert_eq!(decision.target_present_time, Time::from_nanos(20_000_000));
    assert_eq!(plan_after(Some(Time(-3))), decision);
    assert_eq!(plan_after(Some(Time(19_000_000))), decision);
}

/// A 14 ms animation on a 75 Hz display at 20 ms, with a target from an earlier opportunity.
fn slow_fixed_animation(pending: Option<i64>, last: Option<i64>) -> Time {
    slow_fixed_work(FrameDemand::animation(), pending, last)
}

fn slow_fixed_work(demand: FrameDemand, pending: Option<i64>, last: Option<i64>) -> Time {
    plan_frame(
        DisplayTiming::fixed(Duration::from_nanos(13_333_333)),
        estimate_ms(9, 2, 2, 1),
        demand,
        FrameOpportunity {
            now: Time::from_nanos(20_000_000),
            predicted_present_time: Some(Time::from_nanos(26_666_666)),
            frame_interval: Some(Duration::from_nanos(13_333_333)),
            last_present_time: last.map(Time::from_nanos),
            pending_target_present_time: pending.map(Time::from_nanos),
        },
    )
    .target_present_time
}

#[test]
fn slow_fixed_animation_keeps_a_feasible_pending_target() {
    assert_eq!(
        slow_fixed_animation(Some(39_000_000), None),
        Time::from_nanos(39_000_000)
    );
    // Just in time for the work, and a whole interval after the last presentation.
    assert_eq!(
        slow_fixed_animation(Some(34_000_000), Some(20_666_667)),
        Time::from_nanos(34_000_000)
    );
    // Without a target, or with one that cannot be met, the next slot is planned.
    assert_eq!(slow_fixed_animation(None, None), Time::from_nanos(39_999_999));
    assert_eq!(
        slow_fixed_animation(Some(33_999_999), None),
        Time::from_nanos(39_999_999)
    );
    assert_eq!(
        slow_fixed_animation(Some(34_000_000), Some(20_666_668)),
        Time::from_nanos(39_999_999)
    );
}

#[test]
fn other_slow_fixed_work_is_planned_from_the_current_cadence() {
    for demand in [
        FrameDemand::background(),
        FrameDemand::continuous_input(),
    ] {
        assert_eq!(
            slow_fixed_work(demand, Some(39_000_000), None),
            Time::from_nanos(39_999_999)
        );
    }
}

#[test]
fn a_kept_target_on_a_fixed_display_has_a_minimum_duration() {
    let decision = plan_frame(
        DisplayTiming::fixed(Duration::from_millis(10)),
        estimate_ms(8, 4, 4, 1),
        FrameDemand::animation(),
        FrameOpportunity {
            pending_target_present_time: Some(Time::from_nanos(18_000_000)),
            ..FrameOpportunity::new(Time::zero())
        },
    );
    assert_eq!(decision.target_present_time, Time::from_nanos(18_000_000));
    assert_eq!(decision.frame_interval, Duration::from_millis(10));
    assert_eq!(decision.pre_surface_work_start, Time::from_nanos(1_000_000));
    assert_eq!(
        decision.presentation,
        Presentation::AfterMinimumDuration(Duration::from_millis(10))
    );
}

#[test]
fn light_fixed_animation_does_not_wait_for_a_pending_target() {
    let decision = plan_frame(
        DisplayTiming::fixed(Duration::from_millis(10)),
        estimate_ms(2, 1, 1, 1),
        FrameDemand::animation(),
        FrameOpportunity {
            pending_target_present_time: Some(Time::from_nanos(18_000_000)),
            ..FrameOpportunity::new(Time::zero())
        },
    );
    assert_eq!(decision.target_present_time, Time::from_nanos(10_000_000));
}
