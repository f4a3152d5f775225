//! Pacing: the decisions of the pacer over simulated games.

use iframe::pacer::{
    qpc_to_us, us_to_qpc, JitPacer, PacerConfig, PacerDecision, PacerMode, VBlankHint,
};

const FREQ: i64 = 10_000_000; // 100 ns per tick

/// Fixed-point value of a number; a NaN is below everything.
fn fx(v: f64) -> i64 {
    if v.is_nan() {
        i64::MIN
    } else {
        (v * 1e6).round() as i64
    }
}

/// The number that a fixed-point value stands for.
fn val(v: i128) -> f64 {
    v as f64 / 1e6
}

/// Ticks that a number of microseconds take.
fn ticks(us: f64) -> i64 {
    us_to_qpc(fx(us), FREQ)
}

struct Sim {
    pacer: JitPacer,
    epoch_qpc: i64,
    refresh_hz: f64,
    /// QPC at which the game thread was released for the current frame.
    release_qpc: i64,
    present_starts: Vec<i64>,
    decisions: Vec<PacerDecision>,
}

impl Sim {
    fn new(cfg: PacerConfig, refresh_hz: f64) -> Self {
        Self {
            pacer: JitPacer::new(cfg, FREQ),
            epoch_qpc: 1_000_000_000,
            refresh_hz,
            release_qpc: 1_000_000_000,
            present_starts: Vec::new(),
            decisions: Vec::new(),
        }
    }

    fn vb_int_qpc(&self) -> i64 {
        ticks(1_000_000.0 / self.refresh_hz)
    }

    fn last_vblank_before(&self, t: i64) -> i64 {
        let int = self.vb_int_qpc();
        self.epoch_qpc + ((t - self.epoch_qpc) / int) * int
    }

    /// Runs one frame: the game starts at `self.release_qpc`, spends
    /// `cpu_us` simulating/rendering, calls Present (which takes
    /// `pres_us`), the pacer decides, the sim sleeps until wake.
    fn step(&mut self, cpu_us: f64, pres_us: f64) {
        let pres_start = self.release_qpc + ticks(cpu_us);
        let pres_end = pres_start + ticks(pres_us);
        let hint = VBlankHint {
            refresh_hz: fx(self.refresh_hz),
            last_vblank_qpc: self.last_vblank_before(pres_end),
        };
        let d = self.pacer.on_present_complete(pres_start, pres_end, Some(hint));
        // Invariant under test: we NEVER hold the completed frame.
        assert!(
            d.wake_qpc >= pres_end,
            "wake {} < present_end {} — frame would be held!",
            d.wake_qpc,
            pres_end
        );
        self.release_qpc = d.wake_qpc;
        self.pacer.mark_released(d.wake_qpc);
        self.present_starts.push(pres_start);
        self.decisions.push(d);
    }

    /// Present-to-present intervals in µs.
    fn present_intervals_us(&self) -> Vec<f64> {
        self.present_starts
            .windows(2)
            .map(|w| val(qpc_to_us(w[1] - w[0], FREQ)))
            .collect()
    }
}

fn cfg(target_fps: f64, mode: PacerMode) -> PacerConfig {
    PacerConfig {
        target_fps: fx(target_fps),
        mode,
        ..Default::default()
    }
}

#[test]
fn stable_60fps_on_120hz_is_flat_and_never_late() {
    let mut sim = Sim::new(cfg(60.0, PacerMode::FixedVsync), 120.0);
    for _ in 0..600 {
        sim.step(5000.0, 100.0); // 5 ms frame cost, way under budget
    }
    let intervals = &sim.present_intervals_us()[100..];
    let target = 1_000_000.0 / 60.0;
    let max_err = intervals.iter().fold(0.0f64, |m, &v| m.max((v - target).abs()));
    assert!(
        max_err < 200.0,
        "present-to-present drift {max_err} µs exceeds 200 µs"
    );
    // Every frame must complete before its target vblank (no missed slots).
    let lates = sim.decisions[100..].iter().filter(|d| d.stats.late).count();
    assert_eq!(lates, 0, "stable input should never miss a vblank");
}

#[test]
fn cadence_40fps_on_120hz_steps_every_3rd_vblank() {
    let mut sim = Sim::new(cfg(40.0, PacerMode::FixedVsync), 120.0);
    for _ in 0..300 {
        sim.step(4000.0, 100.0);
    }
    let steps: Vec<i64> = sim.decisions[10..].iter().map(|d| d.cadence_step).collect();
    assert!(steps.iter().all(|&s| s == 3), "expected uniform step 3, got {steps:?}");
}

#[test]
fn cadence_50fps_on_120hz_averages_2_4_vblanks() {
    let mut sim = Sim::new(cfg(50.0, PacerMode::FixedVsync), 120.0);
    for _ in 0..500 {
        sim.step(4000.0, 100.0);
    }
    let steps: Vec<i64> = sim.decisions[50..].iter().map(|d| d.cadence_step).collect();
    let total: i64 = steps.iter().sum();
    let avg = total as f64 / steps.len() as f64;
    assert!(
        (avg - 2.4).abs() < 0.05,
        "average cadence {avg} deviates from 2.4"
    );
    // Only 2- and 3-vblank steps allowed (no burst of 4+).
    assert!(steps.iter().all(|&s| (2..=3).contains(&s)));
}

#[test]
fn single_20ms_spike_does_not_break_pacing() {
    let mut sim = Sim::new(cfg(60.0, PacerMode::FixedVsync), 120.0);
    for _ in 0..100 {
        sim.step(5000.0, 100.0);
    }
    // One pathological frame: 20 ms CPU.
    sim.step(20000.0, 100.0);
    // Recovery: the next decisions must be sane (no negative sleeps, no
    // runaway catch-up bursts) and pacing must resettle.
    for _ in 0..100 {
        sim.step(5000.0, 100.0);
    }
    let intervals = &sim.present_intervals_us()[110..];
    let target = 1_000_000.0 / 60.0;
    let max_err = intervals.iter().fold(0.0f64, |m, &v| m.max((v - target).abs()));
    assert!(max_err < 300.0, "did not recover after spike: {max_err} µs");
}

#[test]
fn gpu_bound_game_is_never_delayed() {
    let mut sim = Sim::new(cfg(60.0, PacerMode::FixedVsync), 120.0);
    for _ in 0..200 {
        sim.step(25000.0, 100.0); // 25 ms >> 16.6 ms budget
    }
    // Every decision must bypass: zero sleep, zero added latency.
    let bypasses = sim.decisions.iter().filter(|d| d.stats.bypass).count();
    assert_eq!(bypasses, sim.decisions.len(), "limiter must be inert when overloaded");
    let any_sleep = sim
        .decisions
        .iter()
        .any(|d| val(d.stats.sleep_us as i128) > 0.001);
    assert!(!any_sleep, "no sleep is allowed while GPU-bound");
}

#[test]
fn vrr_mode_gives_flat_start_to_start() {
    let mut sim = Sim::new(cfg(90.0, PacerMode::Vrr), 120.0);
    for _ in 0..600 {
        sim.step(6000.0, 100.0);
    }
    let intervals = &sim.present_intervals_us()[100..];
    let target = 1_000_000.0 / 90.0;
    let max_err = intervals.iter().fold(0.0f64, |m, &v| m.max((v - target).abs()));
    assert!(max_err < 150.0, "VRR start-to-start drift {max_err} µs");
}

#[test]
fn target_above_refresh_is_clamped_in_fixed_mode() {
    // 240 FPS requested on a 60 Hz display → effectively 60.
    let mut sim = Sim::new(cfg(240.0, PacerMode::FixedVsync), 60.0);
    for _ in 0..300 {
        sim.step(3000.0, 100.0);
    }
    let intervals = &sim.present_intervals_us()[50..];
    let target = 1_000_000.0 / 60.0;
    let max_err = intervals.iter().fold(0.0f64, |m, &v| m.max((v - target).abs()));
    assert!(max_err < 300.0, "expected ~60 FPS cadence, drift {max_err} µs");
}

#[test]
fn first_two_frames_release_immediately() {
    let mut sim = Sim::new(cfg(60.0, PacerMode::FixedVsync), 120.0);
    sim.step(5000.0, 100.0);
    assert!(sim.decisions[0].stats.bypass, "first frame must bypass");
    sim.step(5000.0, 100.0);
    // Second frame has only one sample — still conservative.
    assert!(sim.decisions[1].wake_qpc >= 0);
}

#[test]
fn l0_smoke_pacer_creation_all_modes() {
    for mode in [PacerMode::Vrr, PacerMode::FixedVsync, PacerMode::Bypass] {
        let cfg = PacerConfig::for_mode(mode, fx(60.0));
        let pacer = JitPacer::new(cfg.clone(), FREQ);
        assert_eq!(pacer.frames_seen(), 0);
        assert_eq!(pacer.config().mode, mode);
        assert_eq!(val(pacer.config().target_fps as i128), 60.0);
    }
}

#[test]
fn l0_smoke_qpc_conversion_helpers() {
    assert_eq!(val(qpc_to_us(10, FREQ)), 1.0);
    assert_eq!(ticks(1.0), 10);
    assert_eq!(PacerMode::from_u32(0), PacerMode::Vrr);
    assert_eq!(PacerMode::from_u32(1), PacerMode::FixedVsync);
    assert_eq!(PacerMode::from_u32(2), PacerMode::Bypass);
    assert_eq!(PacerMode::from_u32(999), PacerMode::Bypass);
}

#[test]
fn l1_contract_first_frame_always_bypasses() {
    let mut pacer = JitPacer::new(PacerConfig::for_mode(PacerMode::FixedVsync, fx(60.0)), FREQ);
    let t0 = 1_000_000;
    let d = pacer.on_present_complete(t0, t0 + 1000, None);
    assert!(d.stats.bypass, "First frame MUST bypass (no history)");
    assert_eq!(d.wake_qpc, t0 + 1000);
    assert_eq!(pacer.frames_seen(), 1);
}

#[test]
fn l1_contract_completed_frame_never_held() {
    let mut pacer = JitPacer::new(PacerConfig::for_mode(PacerMode::FixedVsync, fx(60.0)), FREQ);
    let mut t = 10_000_000i64;
    pacer.mark_released(t);

    for _ in 0..100 {
        let pres_start = t + ticks(8000.0);
        let pres_end = pres_start + ticks(500.0);
        let d = pacer.on_present_complete(pres_start, pres_end, None);
        assert!(
            d.wake_qpc >= pres_end,
            "CRITICAL INVARIANT VIOLATION: wake_qpc ({}) < pres_end ({}) — frame was held!",
            d.wake_qpc,
            pres_end
        );
        pacer.mark_released(d.wake_qpc);
        t = d.wake_qpc;
    }
}

#[test]
fn l1_contract_cadence_step_accuracy() {
    // 60 FPS on 120 Hz should step 2 vblanks every frame
    let mut pacer = JitPacer::new(PacerConfig::for_mode(PacerMode::FixedVsync, fx(60.0)), FREQ);
    let mut t = 10_000_000i64;
    let vblank_int = ticks(1_000_000.0 / 120.0);

    // Warm up first frame
    let _ = pacer.on_present_complete(t, t + 1000, None);
    pacer.mark_released(t + 1000);
    t += 1000;

    for i in 0..20 {
        let pres_start = t + ticks(5000.0);
        let pres_end = pres_start + ticks(500.0);
        let hint = VBlankHint {
            refresh_hz: fx(120.0),
            last_vblank_qpc: t - (t % vblank_int),
        };
        let d = pacer.on_present_complete(pres_start, pres_end, Some(hint));
        if i > 2 {
            assert_eq!(d.cadence_step, 2, "60 FPS on 120 Hz must step exactly 2 vblanks");
        }
        pacer.mark_released(d.wake_qpc);
        t = d.wake_qpc;
    }
}

#[test]
fn l2_boundary_zero_and_negative_qpc_frequency() {
    assert_eq!(val(qpc_to_us(100, 0)), 0.0);
    assert_eq!(val(qpc_to_us(100, -100)), 0.0);
    assert_eq!(us_to_qpc(fx(100.0), 0), 0);
    assert_eq!(us_to_qpc(fx(100.0), -100), 0);

    let pacer = JitPacer::new(PacerConfig::default(), 0);
    assert!(pacer.frames_seen() == 0);
}

#[test]
fn l2_boundary_target_fps_extremes() {
    let test_fps_values = [
        0.0,
        -100.0,
        0.00001,
        0.1,
        1.0,
        144.0,
        360.0,
        1000.0,
        100_000.0,
        f64::NAN,
        f64::INFINITY,
        f64::NEG_INFINITY,
    ];

    for &fps in &test_fps_values {
        let mut pacer = JitPacer::new(PacerConfig::for_mode(PacerMode::FixedVsync, fx(fps)), FREQ);
        let t0 = 10_000_000;
        let d1 = pacer.on_present_complete(t0, t0 + 1000, None);
        pacer.mark_released(t0 + 1000);
        assert!(d1.wake_qpc >= t0 + 1000);

        let t1 = t0 + 1000;
        let d2 = pacer.on_present_complete(t1 + 5000, t1 + 6000, None);
        assert!(d2.wake_qpc >= t1 + 6000);
        assert!(val(d2.stats.ema_duration_us as i128).is_finite());
        assert!(val(d2.stats.safety_margin_us as i128).is_finite());
    }
}

#[test]
fn l2_boundary_short_frame_threshold() {
    let mut pacer = JitPacer::new(PacerConfig::for_mode(PacerMode::FixedVsync, fx(60.0)), FREQ);
    let t0 = 10_000_000;
    pacer.mark_released(t0);

    // Frame duration < 50 µs (e.g. 49 µs = 490 ticks at 10 MHz) -> ignored by estimator
    let d_short = pacer.on_present_complete(t0 + 100, t0 + 490, None);
    assert!(d_short.stats.bypass, "Frames < 50us must bypass");

    // Frame duration >= 50 µs (e.g. 51 µs = 510 ticks) -> accepted
    let d_ok = pacer.on_present_complete(t0 + 100, t0 + 510, None);
    assert!(d_ok.wake_qpc >= t0 + 510);
}

#[test]
fn l2_boundary_vblank_hint_edge_cases() {
    let invalid_hints = [
        VBlankHint { refresh_hz: fx(0.0), last_vblank_qpc: 100 },
        VBlankHint { refresh_hz: fx(-60.0), last_vblank_qpc: 100 },
        VBlankHint { refresh_hz: fx(0.5), last_vblank_qpc: 100 },
        VBlankHint { refresh_hz: fx(f64::NAN), last_vblank_qpc: 100 },
        VBlankHint { refresh_hz: fx(f64::INFINITY), last_vblank_qpc: 100 },
        VBlankHint { refresh_hz: fx(60.0), last_vblank_qpc: 0 },
        VBlankHint { refresh_hz: fx(60.0), last_vblank_qpc: -500 },
        VBlankHint { refresh_hz: fx(60.0), last_vblank_qpc: i64::MAX },
    ];

    for hint in invalid_hints {
        let mut pacer = JitPacer::new(PacerConfig::for_mode(PacerMode::FixedVsync, fx(60.0)), FREQ);
        let t0 = 10_000_000;
        pacer.mark_released(t0);
        let _ = pacer.on_present_complete(t0, t0 + 1000, Some(hint));
        pacer.mark_released(t0 + 1000);
        let d = pacer.on_present_complete(t0 + 5000, t0 + 6000, Some(hint));
        assert!(d.wake_qpc >= t0 + 6000);
    }
}

#[test]
fn l3_property_estimator_invariants_under_randomized_frametimes() {
    let mut pacer = JitPacer::new(PacerConfig::for_mode(PacerMode::FixedVsync, fx(60.0)), FREQ);
    let mut t = 100_000_000i64;
    pacer.mark_released(t);

    // Pseudorandom pseudo-workload
    let mut seed = 0x12345678u64;
    for _ in 0..500 {
        seed = seed.wrapping_mul(6364136223846793005).wrapping_add(1);
        let cpu_us = 1000.0 + ((seed >> 32) % 15000) as f64; // 1ms - 16ms
        let pres_us = 100.0 + ((seed >> 16) % 2000) as f64;

        let pres_start = t + ticks(cpu_us);
        let pres_end = pres_start + ticks(pres_us);
        let hint = VBlankHint {
            refresh_hz: fx(144.0),
            last_vblank_qpc: pres_end - (pres_end % ticks(1e6 / 144.0)),
        };

        let d = pacer.on_present_complete(pres_start, pres_end, Some(hint));

        // Invariant 1: Wake is never earlier than present completion
        assert!(d.wake_qpc >= pres_end);
        // Invariant 2: EMA is finite and non-negative
        assert!(val(d.stats.ema_duration_us as i128) >= 0.0 && val(d.stats.ema_duration_us as i128).is_finite());
        // Invariant 3: Deviation is finite and non-negative
        assert!(val(d.stats.deviation_us as i128) >= 0.0 && val(d.stats.deviation_us as i128).is_finite());
        // Invariant 4: Safety margin is >= base safety margin
        assert!(val(d.stats.safety_margin_us as i128) >= 250.0);
        // Invariant 5: Sleep is finite and non-negative
        assert!(val(d.stats.sleep_us as i128) >= 0.0 && val(d.stats.sleep_us as i128).is_finite());

        pacer.mark_released(d.wake_qpc);
        t = d.wake_qpc;
    }
}

#[test]
fn l4_adversarial_clock_jumps_backward() {
    let mut pacer = JitPacer::new(PacerConfig::for_mode(PacerMode::FixedVsync, fx(60.0)), FREQ);
    let t0 = 100_000_000i64;
    pacer.mark_released(t0);
    let _ = pacer.on_present_complete(t0 + 5000, t0 + 6000, None);
    pacer.mark_released(t0 + 6000);

    // QPC jumps backward by 50 seconds (e.g. system clock sync or multi-core desync)
    let t_back = 50_000_000i64;
    let d = pacer.on_present_complete(t_back, t_back + 1000, None);
    assert!(d.wake_qpc >= t_back + 1000, "Must not hang on backward clock jump");
    assert!(d.stats.bypass, "Negative time frame must bypass");
}

#[test]
fn l4_adversarial_massive_5_second_stall() {
    let mut pacer = JitPacer::new(PacerConfig::for_mode(PacerMode::FixedVsync, fx(60.0)), FREQ);
    let mut t = 100_000_000i64;
    pacer.mark_released(t);

    // Warm up
    for _ in 0..10 {
        let pres_end = t + ticks(8000.0);
        let d = pacer.on_present_complete(t + 7000, pres_end, None);
        pacer.mark_released(d.wake_qpc);
        t = d.wake_qpc;
    }

    let before = pacer.on_present_complete(t + 7000, t + 8000, None);
    let ema_before = val(before.stats.ema_duration_us as i128);

    // 5-second stall (asset loading / shader compilation hitch)
    let stall_end = t + ticks(5_000_000.0);
    let d_stall = pacer.on_present_complete(t + 4_990_000, stall_end, None);
    assert!(d_stall.wake_qpc >= stall_end);
    pacer.mark_released(stall_end);

    // The single stall must NOT poison EMA into seconds (clamped to 4 * interval)
    let d_after = pacer.on_present_complete(stall_end + 7000, stall_end + 8000, None);
    assert!(
        val(d_after.stats.ema_duration_us as i128) < ema_before * 4.0,
        "EMA was poisoned by a single stall: before={}, after={}",
        ema_before,
        val(d_after.stats.ema_duration_us as i128)
    );
}

#[test]
fn l4_adversarial_midstream_mode_and_fps_thrashing() {
    let mut pacer = JitPacer::new(PacerConfig::for_mode(PacerMode::FixedVsync, fx(60.0)), FREQ);
    let mut t = 100_000_000i64;
    pacer.mark_released(t);

    let modes = [PacerMode::FixedVsync, PacerMode::Vrr, PacerMode::Bypass];
    let fps_list = [30.0, 60.0, 144.0, 0.0, 240.0, 10.0, 1000.0];

    for i in 0..100 {
        let mode = modes[i % modes.len()];
        let fps = fps_list[i % fps_list.len()];
        pacer.set_config(PacerConfig::for_mode(mode, fx(fps)));

        let pres_end = t + ticks(7000.0);
        let d = pacer.on_present_complete(t + 6000, pres_end, None);
        assert!(d.wake_qpc >= pres_end);
        pacer.mark_released(d.wake_qpc);
        t = d.wake_qpc;
    }
}

#[test]
fn l4b_fallback_fixed_vsync_without_dwm_hint_falls_back_to_vrr() {
    let mut pacer = JitPacer::new(PacerConfig::for_mode(PacerMode::FixedVsync, fx(60.0)), FREQ);
    let mut t = 10_000_000i64;
    pacer.mark_released(t);

    // Pass hint = None (e.g. fullscreen exclusive or DWM timing unavailable)
    let _d1 = pacer.on_present_complete(t, t + 1000, None);
    pacer.mark_released(t + 1000);
    t += 1000;

    let pres_end = t + ticks(8000.0);
    let d2 = pacer.on_present_complete(t + 7000, pres_end, None);
    assert!(d2.wake_qpc >= pres_end);
    assert_eq!(d2.cadence_step, 1, "Fallback VRR mode steps 1 slot");
}

#[test]
fn l5_state_estimator_converges_to_steady_frametime() {
    let mut pacer = JitPacer::new(PacerConfig::for_mode(PacerMode::FixedVsync, fx(60.0)), FREQ);
    let mut t = 10_000_000i64;
    pacer.mark_released(t);

    // Warm up first frame
    let _ = pacer.on_present_complete(t, t + 1000, None);
    pacer.mark_released(t + 1000);
    t += 1000;

    // Feed constant 8000 µs frames
    let frame_us = 8000.0;
    let mut last_decision = None;
    for _ in 0..60 {
        let pres_end = t + ticks(frame_us);
        let d = pacer.on_present_complete(t + ticks(frame_us - 500.0), pres_end, None);
        pacer.mark_released(d.wake_qpc);
        t = d.wake_qpc;
        last_decision = Some(d);
    }

    let d = last_decision.unwrap();
    assert!(
        (val(d.stats.ema_duration_us as i128) - frame_us).abs() < 50.0,
        "EMA duration {:.1} did not converge to frame_us {:.1}",
        val(d.stats.ema_duration_us as i128),
        frame_us
    );
    assert!(
        val(d.stats.deviation_us as i128) < 10.0,
        "Steady state deviation {:.1} should be near zero",
        val(d.stats.deviation_us as i128)
    );
}

#[test]
fn l9_negative_space_bypass_mode_never_delays() {
    let mut pacer = JitPacer::new(PacerConfig::for_mode(PacerMode::Bypass, fx(60.0)), FREQ);
    let mut t = 10_000_000i64;
    pacer.mark_released(t);

    for _ in 0..50 {
        let pres_end = t + ticks(5000.0);
        let d = pacer.on_present_complete(t + 4000, pres_end, None);
        assert_eq!(d.wake_qpc, pres_end, "Bypass mode MUST NOT delay wake_qpc");
        assert_eq!(val(d.stats.sleep_us as i128), 0.0, "Bypass mode sleep_us MUST be 0");
        assert!(d.stats.bypass, "Bypass flag MUST be set");
        pacer.mark_released(pres_end);
        t = pres_end;
    }
}

#[test]
fn l9_negative_space_overloaded_frame_never_delayed() {
    // 60 FPS -> interval is 16666 µs. If frame took 16500 µs (overloaded), sleep must be 0
    let mut pacer = JitPacer::new(PacerConfig::for_mode(PacerMode::FixedVsync, fx(60.0)), FREQ);
    let mut t = 10_000_000i64;
    pacer.mark_released(t);

    let _ = pacer.on_present_complete(t, t + 1000, None);
    pacer.mark_released(t + 1000);
    t += 1000;

    let pres_end = t + ticks(16500.0);
    let d = pacer.on_present_complete(t + 16000, pres_end, None);
    assert_eq!(d.wake_qpc, pres_end, "Overloaded frame MUST NOT be delayed");
    assert_eq!(val(d.stats.sleep_us as i128), 0.0);
}

#[test]
fn a_negative_target_advances_one_vblank() {
    let mut cfg = cfg(-100.0, PacerMode::FixedVsync);
    cfg.base_safety_margin_us = 0;
    let mut p = JitPacer::new(cfg, FREQ);
    let hint = |q: i64| Some(VBlankHint { refresh_hz: fx(120.0), last_vblank_qpc: q });
    let start = 1_000_000_000;
    p.on_present_complete(start, start, hint(start));
    // 5 ms: one vblank on is too near for a frame that costs so much.
    let end = start + 50_000;
    let d = p.on_present_complete(end, end, hint(start));
    assert_eq!(d.cadence_step, 2);
    assert!(d.stats.late);
    assert_eq!(d.wake_qpc, start + 2 * 83_333 - 50_000);
}

#[test]
fn a_steady_game_is_never_late_after_its_second_frame() {
    for cost in [1_000.0, 4_100.0, 16_000.0] {
        let mut sim = Sim::new(cfg(50.0, PacerMode::FixedVsync), 120.0);
        for _ in 0..102 {
            sim.step(cost - 100.0, 100.0);
        }
        let after = &sim.decisions[2..];
        assert!(after.iter().all(|d| !d.stats.late && (2..=3).contains(&d.cadence_step)));
        let total: i64 = after.iter().map(|d| d.cadence_step).sum();
        assert_eq!(total, 240);
    }
}

#[test]
fn a_target_of_nothing_is_due_after_every_vblank() {
    let mut p = JitPacer::new(cfg(0.0, PacerMode::FixedVsync), FREQ);
    let hint = |q: i64| Some(VBlankHint { refresh_hz: fx(120.0), last_vblank_qpc: q });
    let start = 1_000_000_000;
    p.on_present_complete(start, start, hint(start));
    // Ten seconds are the whole budget; no frame is behind a cadence without an end.
    let end = start + 100_000_000;
    let d = p.on_present_complete(end, end, hint(end));
    assert!(!d.stats.late);
    assert!(d.stats.bypass);
    // 100_003_000 ticks of lead, in vblanks of 83_333.
    assert_eq!(d.cadence_step, 1201);
    assert_eq!(d.target_tick_qpc, end + 1201 * 83_333);
}

#[test]
fn vblanks_between_two_ticks_are_beyond_counting() {
    let hint = |q: i64| Some(VBlankHint { refresh_hz: fx(144.0), last_vblank_qpc: q });
    // A counter of one tick per second.
    let mut p = JitPacer::new(cfg(60.0, PacerMode::FixedVsync), 1);
    p.on_present_complete(1000, 1000, hint(1000));
    let d = p.on_present_complete(1001, 1001, hint(1000));
    assert_eq!(d.cadence_step, i64::MAX);
    assert_eq!(d.target_tick_qpc, 1000);
    assert_eq!(d.wake_qpc, 1001);
    assert!(d.stats.late);
    // A frame that ended at the vblank can still make it.
    let mut p = JitPacer::new(cfg(60.0, PacerMode::FixedVsync), 1);
    p.on_present_complete(1000, 1000, hint(1000));
    let d = p.on_present_complete(1001, 1001, hint(1001));
    assert_eq!((d.cadence_step, d.target_tick_qpc, d.stats.late), (0, 1001, false));
}

#[test]
fn slots_between_two_ticks_are_one_instant() {
    let mut p = JitPacer::new(cfg(1.0, PacerMode::Vrr), 1_000);
    p.on_present_complete(1000, 1000, None);
    let d = p.on_present_complete(1100, 1100, None);
    assert_eq!((d.target_tick_qpc, d.wake_qpc), (2000, 1900));
    p.mark_released(1200);
    p.set_config(cfg(10_000.0, PacerMode::Vrr));
    let d = p.on_present_complete(1300, 1300, None);
    assert_eq!((d.target_tick_qpc, d.wake_qpc, d.stats.late), (1300, 1300, false));
}

#[test]
fn a_steady_game_is_evenly_spaced_where_the_display_follows() {
    for cost in [500.0, 6_100.0, 10_800.0] {
        let mut sim = Sim::new(cfg(90.0, PacerMode::Vrr), 120.0);
        for _ in 0..100 {
            sim.step(cost - 100.0, 100.0);
        }
        for pair in sim.decisions[1..].windows(2) {
            assert!(!pair[1].stats.late);
            assert_eq!(pair[1].wake_qpc - pair[0].wake_qpc, 111_111);
            assert_eq!(pair[1].target_tick_qpc - pair[0].target_tick_qpc, 111_111);
        }
    }
}

#[test]
fn the_estimate_settles_after_a_stall() {
    let mut sim = Sim::new(cfg(60.0, PacerMode::Vrr), 120.0);
    for _ in 0..10 {
        sim.step(4_900.0, 100.0);
    }
    sim.step(50_000.0, 100.0);
    let mut far = (sim.decisions[10].stats.ema_duration_us - fx(5_000.0)).abs();
    assert!(far > fx(5_000.0));
    for _ in 0..150 {
        sim.step(4_900.0, 100.0);
        let now = (sim.decisions.last().unwrap().stats.ema_duration_us - fx(5_000.0)).abs();
        assert!(2_000_000 * now <= 2 * 850_000 * far + 1_000_000);
        far = now;
    }
    assert!(far <= 3);
}
