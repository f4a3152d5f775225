//! Benchmark figures and telemetry from events.

use iframe::bench::{
    compare, compute_phase_metrics, phase_config, ready_wait, tuner_input, Phase, PhaseCollector,
    READY_TIMEOUT_NS,
};
use iframe::cli::HookWait;
use iframe::etw::{frame_interval, is_present_event, EtwFeed, PresentEvent};
use iframe::live::LiveStats;
use iframe::pacer::PacerMode;
use iframe::shared_mem::TelemetryFrame;
use iframe::watch::second_stats;

/// Fixed-point value of a number.
fn fx(v: f64) -> i64 {
    (v * 1e6).round() as i64
}

/// The number that a fixed-point value stands for.
fn val(v: i64) -> f64 {
    v as f64 / 1e6
}

fn all(v: &[f64]) -> Vec<i64> {
    v.iter().map(|&x| fx(x)).collect()
}

#[test]
fn l0_smoke_compute_phase_metrics_empty() {
    let none = Vec::new();
    let res = compute_phase_metrics("Empty Phase", &none, &none, &none, 0);
    assert_eq!(res.total_frames, 0);
    assert_eq!(res.fps, 0);
    assert_eq!(res.ft_p50_ms, 0);
    assert_eq!(res.ft_p99_ms, 0);
    assert_eq!(res.ft_jitter_ms, 0);
}

#[test]
fn l1_contract_constant_60fps_known_coordinates() {
    let ft_ms = 1000.0 / 60.0; // 16.666667 ms
    let frames = vec![fx(ft_ms); 120];
    let holds = vec![fx(0.5); 120]; // 0.5 ms present call duration
    let waits = vec![fx(5.0); 120]; // 5.0 ms pacing sleep

    let res = compute_phase_metrics("Fixed 60 FPS", &frames, &holds, &waits, 0);
    assert_eq!(res.total_frames, 120);
    assert!((val(res.fps) - 60.0).abs() < 0.001, "FPS must be 60.0");
    assert!((val(res.ft_mean_ms) - ft_ms).abs() < 0.001);
    assert!((val(res.ft_p50_ms) - ft_ms).abs() < 0.001);
    assert!((val(res.ft_p99_ms) - ft_ms).abs() < 0.001);
    assert!((val(res.ft_jitter_ms) - 0.0).abs() < 0.001, "Constant frametime has 0 jitter");
    assert!((res.ft_std_ms as f64 / 1e6 - 0.0).abs() < 0.001, "Constant frametime has 0 std dev");
    assert!((val(res.present_hold_p50_ms) - 0.5).abs() < 0.001);
    assert!((val(res.pacing_wait_p50_ms) - 5.0).abs() < 0.001);
}

#[test]
fn l1_contract_etw_timestamp_conversion_math() {
    // Event timestamps are in 100 ns units (10 MHz equivalent ticks)
    let ts1 = 1_000_000_000u64;
    let ts2 = ts1 + 166_667; // ~16.6667 ms in 100ns units

    let frametime_us = val(frame_interval(ts1, ts2));
    assert!((frametime_us - 16_666.7).abs() < 0.1);
    let frametime_ms = frametime_us / 1000.0;
    assert!((frametime_ms - 16.6667).abs() < 0.001);
}

#[test]
fn l2_boundary_single_frame_metrics() {
    let frames = all(&[16.0]);
    let holds = all(&[1.0]);
    let waits = all(&[2.0]);

    let res = compute_phase_metrics("Single", &frames, &holds, &waits, 1);
    assert_eq!(res.total_frames, 1);
    assert_eq!(res.late_frames, 1);
    assert_eq!(res.ft_min_ms, fx(16.0));
    assert_eq!(res.ft_max_ms, fx(16.0));
    assert_eq!(res.ft_p50_ms, fx(16.0));
    assert_eq!(res.ft_p99_ms, fx(16.0));
    assert_eq!(res.ft_jitter_ms, 0);
    assert_eq!(res.ft_std_ms, 0);
}

#[test]
fn l2_boundary_zero_present_durations() {
    let frames = all(&[8.33, 8.33, 8.33]);
    let holds = all(&[0.0, 0.0, 0.0]);
    let waits = all(&[0.0, 0.0, 0.0]);

    let res = compute_phase_metrics("Zero Durations", &frames, &holds, &waits, 0);
    assert_eq!(res.present_hold_p50_ms, 0);
    assert_eq!(res.pacing_wait_p50_ms, 0);
    assert!((val(res.fps) - 120.048).abs() < 0.01);
}

#[test]
fn l3_property_statistical_invariants() {
    let mut frames = Vec::new();
    let mut holds = Vec::new();
    let mut waits = Vec::new();

    for i in 1..=200 {
        frames.push(fx((i % 20 + 5) as f64)); // 5ms - 25ms
        holds.push(fx((i % 3) as f64 * 0.1));
        waits.push(fx((i % 5) as f64));
    }

    let res = compute_phase_metrics("Random Distribution", &frames, &holds, &waits, 5);

    assert!(res.ft_p50_ms <= res.ft_p99_ms, "p50 must be <= p99");
    assert!(res.ft_min_ms <= res.ft_mean_ms, "min must be <= mean");
    assert!(res.ft_mean_ms <= res.ft_max_ms, "mean must be <= max");
    assert!(res.ft_jitter_ms >= 0, "jitter must be >= 0.0");
    assert_eq!(res.late_frames, 5);
    // Mean 14.5 ms; the deviations of 5..=24 have a variance of 33.25.
    assert_eq!(res.ft_mean_ms, fx(14.5));
    assert!((res.ft_std_ms as f64 / 1e6 - 33.25f64.sqrt()).abs() < 0.00001);
}

#[test]
fn l4_adversarial_single_massive_spike_caught_in_max_and_p99() {
    // 980 frames at 16.6ms + 20 frames at 200.0ms hitch (2% outliers)
    let mut frames = vec![fx(16.6); 980];
    frames.extend(vec![fx(200.0); 20]);
    let holds = vec![fx(0.2); 1000];
    let waits = vec![fx(4.0); 1000];

    let res = compute_phase_metrics("Hitch Test", &frames, &holds, &waits, 20);
    assert_eq!(res.ft_max_ms, fx(200.0), "Max must capture the hitch");
    assert_eq!(res.ft_p99_ms, fx(200.0), "p99 must capture the top 2% hitches");
    assert!(
        (val(res.ft_p50_ms) - 16.6).abs() < 0.01,
        "Median p50 must remain undisturbed by 2% hitches"
    );
    assert!(val(res.ft_jitter_ms) > 150.0, "Jitter must reflect the outlier spread");
}

#[test]
fn a_phase_is_collected_from_its_records() {
    let mut c = PhaseCollector::new(10_000_000);
    for i in 0..5i64 {
        c.ingest(&TelemetryFrame {
            present_start_qpc: i * 250_000,
            present_end_qpc: i * 250_000 + 5_000,
            release_qpc: i * 250_000 + 105_000,
            flags: if i == 2 { TelemetryFrame::FLAG_LATE } else { 0 },
            ..TelemetryFrame::default()
        });
    }
    // A gap of a second is no frame.
    c.ingest(&TelemetryFrame { present_start_qpc: 11_000_000, ..TelemetryFrame::default() });
    let r = c.finish("phase");
    assert_eq!(r.name, "phase");
    assert_eq!(r.total_frames, 4);
    assert_eq!(r.fps, fx(40.0));
    assert_eq!(r.ft_p50_ms, fx(25.0));
    assert_eq!(r.present_hold_p50_ms, fx(0.5));
    assert_eq!(r.pacing_wait_p50_ms, fx(10.0));
    assert_eq!(r.late_frames, 1);
}

#[test]
fn phases_are_compared() {
    let phase = |ft: f64, spread: f64, hold: f64| {
        let mut frames = vec![fx(ft); 98];
        frames.extend(vec![fx(ft + spread); 2]);
        compute_phase_metrics("p", &frames, &vec![fx(hold); 100], &vec![0; 100], 0)
    };
    let c = compare(&phase(10.0, 4.0, 1.0), &phase(16.0, 0.5, 0.1), &phase(25.0, 0.0, 0.1));
    assert_eq!(c.uncapped_lag_ms, fx(31.0));
    assert_eq!(c.fixed_lag_ms, fx(16.1));
    assert_eq!(c.fixed_saved_ms, fx(14.9));
    assert_eq!(c.vrr_lag_ms, fx(25.1));
    assert_eq!(c.vrr_saved_ms, fx(5.9));
    assert_eq!(c.steadier, fx(8.0));
    let flat = phase(25.0, 0.0, 0.1);
    assert_eq!(compare(&flat, &flat, &flat).steadier, fx(1.0));

    let cfg = phase_config(Phase::Vrr40);
    assert!(cfg.enabled && cfg.vsync_override);
    assert_eq!((cfg.mode, cfg.target_fps, cfg.refresh_hz), (PacerMode::Vrr, fx(40.0), 0));
    assert!(!phase_config(Phase::Uncapped).enabled);
    assert_eq!(phase_config(Phase::Fixed60).target_fps, fx(60.0));
}

#[test]
fn present_events_of_the_watched_process_count() {
    let mut feed = EtwFeed::new(9);
    let mut stats = LiveStats::default();
    let id = (0..=u16::MAX).find(|&id| is_present_event(id)).unwrap();
    let event = |pid: u32, i: u64| PresentEvent {
        id,
        pid,
        timestamp: 1_000_000 + i * 100_000,
        now_qpc: i as i64 * 100_000,
        now_ns: i * 10_000_000,
    };
    for i in 0..10 {
        feed.on_event(&mut stats, event(9, i), 10_000_000);
        feed.on_event(&mut stats, event(8, i), 10_000_000);
    }
    assert_eq!(stats.total, 9);
    assert_eq!(stats.samples.len(), 9);
    assert!(stats.samples.iter().all(|s| s.ft_us == fx(10_000.0)));
    assert_eq!(frame_interval(0, 5), 0);
}

#[test]
fn a_second_of_presents_is_summed_up() {
    let starts: Vec<i64> = (0..11).map(|i| i * 200_000).collect();
    let s = second_stats(&starts, 10_000_000).unwrap();
    assert_eq!(s.presents, 11);
    assert_eq!(s.fps, fx(50.0));
    assert_eq!(s.p50_us, fx(20_000.0));
    assert_eq!(s.max_us, fx(20_000.0));
    assert!(second_stats(&vec![5], 10_000_000).is_none());
}

#[test]
fn only_the_time_ends_the_wait_of_the_benchmark() {
    assert_eq!(ready_wait(1, u64::MAX), HookWait::Installed);
    assert_eq!(ready_wait(2, 0), HookWait::Wait);
    assert_eq!(ready_wait(2, READY_TIMEOUT_NS), HookWait::TimedOut);
    assert_eq!(ready_wait(0, READY_TIMEOUT_NS - 1), HookWait::Wait);
}

#[test]
fn the_tuner_is_handed_both_phases() {
    let ft = all(&[10.0, 20.0, 30.0]);
    let hold = all(&[1.0, 2.0, 3.0]);
    let wait = all(&[4.0, 5.0, 6.0]);
    let off = compute_phase_metrics("off", &ft, &hold, &wait, 2);
    let on = compute_phase_metrics("on", &all(&[25.0]), &all(&[0.5]), &all(&[7.0]), 1);
    let t = tuner_input(&off, &on, fx(144.0));
    assert_eq!((t.refresh_hz, t.current_target_fps), (fx(144.0), fx(60.0)));
    assert_eq!((t.off.fps, t.off.p50_ms, t.off.p99_ms), (fx(50.0), off.ft_p50_ms, off.ft_p99_ms));
    assert_eq!((t.off.hold_p50_ms, t.off.hold_max_ms), (fx(2.0), fx(3.0)));
    assert_eq!((t.off.wait_p50_ms, t.off.jitter_ms), (fx(5.0), off.ft_jitter_ms));
    assert_eq!((t.off.late_count, t.off.sample_count), (2, 3));
    assert_eq!((t.on.fps, t.on.late_count, t.on.sample_count), (fx(40.0), 1, 1));
}
