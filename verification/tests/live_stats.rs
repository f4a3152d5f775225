//! Frame-time statistics of the panel.

use std::collections::VecDeque;

use iframe::live::{
    compute_side_stats, working_frequency, Sample, SharedState, SideBucket, TelemetryFeed,
    HISTORY_SECONDS,
};
use iframe::shared_mem::TelemetryFrame;
use iframe::stats::{isqrt, p50_of, percentile, sorted, sum_of};

const FREQ: i64 = 10_000_000;

/// Fixed-point value of a number; a NaN is below everything.
fn fx(v: f64) -> i64 {
    if v.is_nan() {
        i64::MIN
    } else {
        (v * 1e6).round() as i64
    }
}

/// The number that a fixed-point value stands for.
fn val(v: i64) -> f64 {
    v as f64 / 1e6
}

/// A frame at `t` seconds that took `ft` microseconds.
fn at(t: f64, ft: f64) -> Sample {
    Sample { t_qpc: (t * FREQ as f64).round() as i64, ft_us: fx(ft) }
}

fn dq(v: &[(f64, f64)]) -> VecDeque<Sample> {
    v.iter().map(|&(t, ft)| at(t, ft)).collect()
}

#[test]
fn side_stats_empty_and_single_are_zero() {
    assert_eq!(compute_side_stats(&VecDeque::new()), (0, 0, 0));
    assert_eq!(compute_side_stats(&dq(&[(1.0, 5000.0)])), (0, 0, 0));
}

#[test]
fn side_stats_constant_frametime_is_flat() {
    let s = dq(&[(0.0, 16_666.667), (0.1, 16_666.667), (0.2, 16_666.667)]);
    let (fps, p50, p99) = compute_side_stats(&s);
    let (fps, p50, p99) = (val(fps), val(p50), val(p99));
    assert!((fps - 60.0).abs() < 0.01, "fps {fps}");
    assert!((p50 - 16_666.667).abs() < 0.01, "p50 {p50}");
    assert!((p99 - 16_666.667).abs() < 0.01, "p99 {p99}");
}

#[test]
fn side_stats_p99_catches_outliers() {
    // 200 normal frames + 10 spikes: p99 must land on the spike value.
    let mut v: Vec<(f64, f64)> = (0..200).map(|i| (i as f64, 10_000.0)).collect();
    v.extend((200..210).map(|i| (i as f64, 50_000.0)));
    let (_, _, p99) = compute_side_stats(&dq(&v));
    assert!((val(p99) - 50_000.0).abs() < 1e-9, "p99 {p99}");
}

#[test]
fn side_bucket_trims_to_window_and_freezes_when_inactive() {
    let mut b = SideBucket::new();
    // 15 s of samples at 10 Hz: only the last 10 s survive the trim.
    for i in 0..150 {
        b.push(FREQ, at(i as f64 * 0.1, 10_000.0), fx(120.0), fx(5.0));
    }
    assert_eq!(b.samples.len(), 101);
    assert_eq!(b.holds.len(), 101);
    assert_eq!(b.total, 150);
    let published = b.publish();
    assert_eq!(published.total, 150);
    assert!(published.has_timing);
    assert!((val(published.fps) - 100.0).abs() < 0.01);
    assert!((val(published.hold_p50_us) - 120.0).abs() < 1e-9);
    assert!((val(published.wait_p50_us) - 5.0).abs() < 1e-9);
}

#[test]
fn l0_smoke_live_stats_structures() {
    let state = SharedState::new();
    assert_eq!(state.attached_pid, 0);
    assert!(!state.limiter_on);

    assert_eq!(state.stats.total, 0);
    assert_eq!(state.stats.samples.len(), 0);
    assert_eq!((state.stats.fps, state.stats.late, state.stats.bypass), (0, 0, 0));
}

#[test]
fn l1_contract_percentile_known_coordinates() {
    let values: Vec<i64> =
        [10.0, 20.0, 30.0, 40.0, 50.0, 60.0, 70.0, 80.0, 90.0, 100.0].map(fx).to_vec();
    assert_eq!(percentile(&values, fx(0.0)), fx(10.0));
    assert_eq!(percentile(&values, fx(0.50)), fx(60.0)); // (10 - 1) * 0.5 = 4.5 -> round to 5
    assert_eq!(percentile(&values, fx(1.0)), fx(100.0));
}

#[test]
fn l1_contract_constant_frametime_exact_stats() {
    let mut samples = VecDeque::new();
    for i in 0..100 {
        samples.push_back(at(i as f64 * 0.01666, 16666.666));
    }
    let (fps, p50, p99) = compute_side_stats(&samples);
    assert!((val(fps) - 60.0).abs() < 0.1);
    assert!((val(p50) - 16666.666).abs() < 0.1);
    assert!((val(p99) - 16666.666).abs() < 0.1);
}

#[test]
fn l2_boundary_percentile_empty_and_extremes() {
    let empty: Vec<i64> = Vec::new();
    assert_eq!(percentile(&empty, fx(0.5)), 0);

    let single = vec![fx(42.0)];
    assert_eq!(percentile(&single, fx(0.0)), fx(42.0));
    assert_eq!(percentile(&single, fx(0.5)), fx(42.0));
    assert_eq!(percentile(&single, fx(1.0)), fx(42.0));
    assert_eq!(percentile(&single, fx(-10.0)), fx(42.0)); // Out of bounds negative q
    assert_eq!(percentile(&single, fx(10.0)), fx(42.0)); // Out of bounds high q
    assert_eq!(percentile(&single, fx(f64::NAN)), fx(42.0)); // NaN q
}

#[test]
fn l2_boundary_side_stats_empty_single_and_nan() {
    let empty = VecDeque::new();
    assert_eq!(compute_side_stats(&empty), (0, 0, 0));

    let mut single = VecDeque::new();
    single.push_back(at(1.0, 16000.0));
    assert_eq!(compute_side_stats(&single), (0, 0, 0));

    // Queue containing NaNs, Infinities, and negative values
    let mut corrupt = VecDeque::new();
    corrupt.push_back(at(1.0, f64::NAN));
    corrupt.push_back(at(2.0, f64::INFINITY));
    corrupt.push_back(at(3.0, -500.0));
    corrupt.push_back(at(4.0, 16000.0));
    corrupt.push_back(at(5.0, 16000.0));

    // Must filter invalid frame times
    let (fps, p50, p99) = compute_side_stats(&corrupt);
    assert!(fps > 0);
    assert_eq!(p50, fx(16000.0));
    assert_eq!(p99, fx(16000.0));
}

#[test]
fn l3_property_p50_always_less_or_equal_to_p99() {
    let mut seed = 0xABCD1234u64;
    for _ in 0..100 {
        let mut samples = VecDeque::new();
        for i in 0..50 {
            seed = seed.wrapping_mul(6364136223846793005).wrapping_add(1);
            let ft = ((seed >> 32) % 30000) as f64; // 0 to 30ms
            samples.push_back(at(i as f64 * 0.016, ft));
        }
        let (_, p50, p99) = compute_side_stats(&samples);
        assert!(p50 <= p99, "INVARIANT VIOLATION: p50 ({}) > p99 ({})", p50, p99);
    }
}

#[test]
fn l4_adversarial_side_bucket_sliding_window_trims_old_samples() {
    let mut bucket = SideBucket::new();
    let now = 100.0;

    // Push 15 seconds worth of samples (60 FPS = 900 samples)
    for i in 0..900 {
        let t = (now - 15.0) + (i as f64 * (15.0 / 900.0));
        bucket.push(FREQ, at(t, 16666.0), 0, 0);
    }

    // Trimmed to HISTORY_SECONDS before the newest
    let newest_t = bucket.samples[bucket.samples.len() - 1].t_qpc;
    let cutoff = newest_t - HISTORY_SECONDS * FREQ;
    let oldest_t = bucket.samples[0].t_qpc;
    assert!(
        oldest_t >= cutoff,
        "Oldest sample ({}) must be >= cutoff ({})",
        oldest_t,
        cutoff
    );
    assert!(bucket.samples.len() < 900);
}

#[test]
fn a_clock_that_goes_back_clears_the_bucket() {
    let mut b = SideBucket::new();
    b.push(FREQ, at(5.0, 10_000.0), 0, 0);
    b.push(FREQ, at(5.1, 10_000.0), 0, 0);
    b.push(FREQ, at(1.0, 20_000.0), 0, 0);
    assert_eq!(b.samples.len(), 1);
    assert_eq!(b.total, 3);
}

#[test]
fn frames_go_to_the_side_of_the_limiter_and_the_other_side_stays() {
    let mut feed = TelemetryFeed::new(FREQ);
    let frame = |i: i64| TelemetryFrame {
        present_start_qpc: i * 100_000,
        present_end_qpc: i * 100_000 + 1_000,
        release_qpc: i * 100_000 + 2_000,
        flags: if i == 3 { TelemetryFrame::FLAG_LATE } else { 0 },
        ..TelemetryFrame::default()
    };
    for i in 0..10 {
        feed.ingest(&frame(i), false);
    }
    let off = feed.publish(900_000);
    for i in 10..20 {
        feed.ingest(&frame(i), true);
    }
    let both = feed.publish(1_900_000);
    assert_eq!(off.off.total, both.off.total);
    assert_eq!(off.off.samples, both.off.samples);
    assert_eq!(both.on.total, 10);
    assert_eq!(both.late, 1);
    assert_eq!(both.on.p50_us, fx(10_000.0));
    assert_eq!(both.on.fps, fx(100.0));
    assert_eq!(both.on.hold_p50_us, fx(100.0));
    assert_eq!(both.on.wait_p50_us, fx(100.0));
}

#[test]
fn figures_of_plain_values() {
    let v = vec![5, 1, 4, 1, 3];
    assert_eq!(sorted(&v), vec![1, 1, 3, 4, 5]);
    assert_eq!(p50_of(&v), 3);
    assert_eq!(sum_of(&v), 14);
    assert_eq!(isqrt(0), 0);
    assert_eq!(isqrt(15), 3);
    assert_eq!(isqrt(16), 4);
    assert_eq!(isqrt(u64::MAX as u128), 4_294_967_295);
    assert_eq!(working_frequency(0), 10_000_000);
    assert_eq!(working_frequency(-1), 10_000_000);
    assert_eq!(working_frequency(3), 3);
}
