//! Waits and the pacing engine.

use std::time::Instant;

use iframe::config::{ReflexMode, RuntimeConfig};
use iframe::engine::{override_hint, pacer_config, Engine};
use iframe::pacer::{PacerMode, VBlankHint};
use iframe::telemetry::Telemetry;
use iframe::timing::{capped_target, plan_sleep, spin_until, SleepPlan};
use iframe::vblank;

/// A counter of nanoseconds.
const FREQ: i64 = 1_000_000_000;

/// Fixed-point value of a number.
fn fx(v: f64) -> i64 {
    (v * 1e6).round() as i64
}

/// A clock that starts at one second.
struct Clock {
    start: Instant,
}

impl Clock {
    fn new() -> Self {
        Self { start: Instant::now() }
    }

    fn now(&self) -> i64 {
        FREQ + self.start.elapsed().as_nanos() as i64
    }

    /// Waits as planned, with the kernel's part of a wait spent spinning too.
    fn sleep_until(&self, target: i64) {
        match plan_sleep(true, self.now(), FREQ, target) {
            SleepPlan::Done => {}
            SleepPlan::Spin => self.spin(target),
            SleepPlan::Kernel { due_100ns, .. } => {
                let end = self.now() - due_100ns * 100;
                assert!(end <= target);
                while self.now() < end {}
                self.spin(target);
            }
        }
    }

    fn sleep_until_capped(&self, target: i64, max_us: f64) {
        self.sleep_until(capped_target(self.now(), FREQ, target, fx(max_us)));
    }

    fn spin(&self, target: i64) {
        let deadline = spin_until(self.now(), FREQ, target);
        while self.now() < deadline {}
    }
}

fn config(mode: PacerMode, vsync_override: bool) -> RuntimeConfig {
    RuntimeConfig {
        enabled: true,
        mode,
        target_fps: fx(60.0),
        refresh_hz: fx(60.0),
        vsync_override,
        force_waitable: false,
        reflex_mode: ReflexMode::Off,
        overlay_enabled: false,
    }
}

#[test]
fn l0_smoke_sleeper_instantiation() {
    let clock = Clock::new();
    // Sleep a moment (near instant)
    let now = clock.now();
    clock.sleep_until(now + 10);
    assert!(clock.now() >= now + 10);
}

#[test]
fn l1_contract_sleeper_wakes_at_or_after_target() {
    let clock = Clock::new();

    // Test 1ms wait
    let wait_us = 1000.0;
    let ticks = (wait_us * FREQ as f64 / 1_000_000.0).round() as i64;

    let start = clock.now();
    let target = start + ticks;
    clock.sleep_until(target);
    let end = clock.now();

    assert!(end >= target, "Sleeper woke up early! end: {}, target: {}", end, target);

    let actual_us = (end - start) as f64 * 1_000_000.0 / FREQ as f64;
    assert!(
        actual_us >= 1000.0 && actual_us < 3500.0,
        "Sleep duration out of expected bounds: {:.1} µs",
        actual_us
    );
}

#[test]
fn l1_contract_engine_pace_step() {
    let cfg = config(PacerMode::FixedVsync, true);
    let clock = Clock::new();
    let mut engine = Engine::new(&cfg, FREQ);

    let t0 = clock.now();
    let t0_end = t0 + (100.0 * FREQ as f64 / 1e6) as i64;

    // Pace step must never hold frame (release >= t_end)
    if let Some(d1) = engine.pace(t0, t0_end, &cfg, None) {
        assert!(d1.wake_qpc >= t0_end, "Wake target must be >= present_end");
    }

    let t1 = clock.now();
    let t1_end = t1 + (500.0 * FREQ as f64 / 1e6) as i64;
    if let Some(d2) = engine.pace(t1, t1_end, &cfg, None) {
        assert!(d2.wake_qpc >= t1_end);
    }
}

#[test]
fn l2_boundary_sleep_in_the_past_returns_immediately() {
    let clock = Clock::new();
    let now = clock.now();

    let start = Instant::now();
    clock.sleep_until(now - 1000);
    clock.sleep_until(0);
    clock.sleep_until(-500);
    assert!(start.elapsed().as_millis() < 5, "Past sleep timestamps must return immediately");
}

#[test]
fn l2_boundary_sleep_until_capped_negative_and_zero_max() {
    let clock = Clock::new();
    let now = clock.now();

    let start = Instant::now();
    clock.sleep_until_capped(now + 10_000_000, 0.0);
    clock.sleep_until_capped(now + 10_000_000, -100.0);
    assert!(
        start.elapsed().as_millis() < 5,
        "Zero or negative max_us must return immediately without waiting"
    );
}

#[test]
fn l4_adversarial_huge_target_sleep_is_capped() {
    let clock = Clock::new();
    let now = clock.now();

    // Request 100 seconds of sleep with a 2000 µs cap (2 ms)
    let huge_target = now + 100 * FREQ;
    let start = Instant::now();
    clock.sleep_until_capped(huge_target, 2000.0);
    let elapsed = start.elapsed();

    // Must wake up within ~5 ms, NOT 100 seconds!
    assert!(
        elapsed.as_millis() < 50,
        "Broken schedule was not capped! Elapsed: {:?}",
        elapsed
    );
}

#[test]
fn l4_adversarial_spin_until_bounded_by_safety_limit() {
    let clock = Clock::new();
    let start = Instant::now();
    // Even if passed i64::MAX, a spin must not last forever (capped at 100ms)
    let deadline = spin_until(clock.now(), FREQ, i64::MAX);
    while clock.now() < deadline {}
    let elapsed = start.elapsed();
    assert!(
        elapsed.as_millis() >= 80 && elapsed.as_millis() <= 250,
        "spin_until was not bounded properly: elapsed {:?}",
        elapsed
    );
}

#[test]
fn a_long_wait_leaves_its_tail_to_the_spin() {
    // 10 ms: all but 400 µs on the timer, in units of 100 ns.
    assert_eq!(
        plan_sleep(true, 0, FREQ, 10_000_000),
        SleepPlan::Kernel { due_100ns: -96_000, wait_ms: 12 }
    );
    assert_eq!(plan_sleep(true, 0, FREQ, 600_000), SleepPlan::Spin);
    assert_eq!(plan_sleep(false, 0, FREQ, 10_000_000), SleepPlan::Spin);
    assert_eq!(plan_sleep(true, 5, FREQ, 5), SleepPlan::Done);
    assert_eq!(capped_target(0, FREQ, 10_000_000, fx(2000.0)), 2_000_000);
    assert_eq!(capped_target(0, FREQ, 1_000_000, fx(2000.0)), 1_000_000);
}

#[test]
fn settings_reach_the_pacer() {
    let mut cfg = config(PacerMode::Vrr, false);
    cfg.target_fps = 0;
    assert_eq!(pacer_config(&cfg).target_fps, fx(60.0));
    assert_eq!(pacer_config(&cfg).mode, PacerMode::Vrr);
    let hint = Some(VBlankHint { refresh_hz: fx(59.94), last_vblank_qpc: 7 });
    cfg.refresh_hz = fx(144.0);
    assert_eq!(
        override_hint(hint, &cfg),
        Some(VBlankHint { refresh_hz: fx(144.0), last_vblank_qpc: 7 })
    );
    cfg.refresh_hz = fx(1.0);
    assert_eq!(override_hint(hint, &cfg), hint);
    assert_eq!(override_hint(None, &cfg), None);
}

#[test]
fn only_plausible_displays_give_a_grid() {
    let h = vblank::hint(123, 60_000, 1_001).unwrap();
    assert_eq!(h.refresh_hz, 59_940_060);
    assert_eq!(h.last_vblank_qpc, 123);
    assert!(vblank::hint(0, 60, 1).is_none());
    assert!(vblank::hint(5, 0, 1).is_none());
    assert!(vblank::hint(5, 60, 0).is_none());
    assert!(vblank::hint(5, 9, 1).is_none());
    assert!(vblank::hint(5, 10, 1).is_some());
}

#[test]
fn without_a_region_telemetry_is_silent() {
    let mut t = Telemetry::new(None);
    t.record_present(1, 2);
    assert!(t.ring().is_none());
    assert_eq!(t.config(), RuntimeConfig::default());
}

#[test]
fn nothing_is_reported_where_the_limiter_steps_aside() {
    let mut cfg = config(PacerMode::Vrr, true);
    let ms = FREQ / 1000;
    let mut engine = Engine::new(&cfg, FREQ);
    // No history yet.
    assert_eq!(engine.pace(FREQ, FREQ, &cfg, None), None);
    // 5 ms of 16.7: the next frame starts its cost and the margin before its slot.
    let end = FREQ + 5 * ms;
    let d = engine.pace(end, end, &cfg, None).unwrap();
    assert_eq!(d.target_tick_qpc, FREQ + 16_666_667);
    assert_eq!(d.wake_qpc, d.target_tick_qpc - 5_300_000);
    assert!(engine.released(d.wake_qpc));
    // Too short for a frame.
    assert_eq!(engine.pace(d.wake_qpc, d.wake_qpc + 10, &cfg, None), None);
    // The whole budget is gone.
    assert_eq!(engine.pace(d.wake_qpc, d.wake_qpc + 60 * ms, &cfg, None), None);
    cfg.mode = PacerMode::Bypass;
    assert_eq!(engine.pace(FREQ * 2, FREQ * 2 + 5 * ms, &cfg, None), None);
}
