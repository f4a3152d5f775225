//! The telemetry ring and the settings beside it.

use iframe::config::{ReflexMode, RuntimeConfig};
use iframe::pacer::PacerMode;
use iframe::shared_mem::{
    slots_in, total_size, SharedRegion, SharedRing, TelemetryFrame, HEADER_BYTES, RECORD_BYTES,
    SM_MAGIC, SM_VERSION,
};

/// Fixed-point value of a number.
fn fx(v: f64) -> i64 {
    (v * 1e6).round() as i64
}

fn sample_rec(seq: u64) -> TelemetryFrame {
    TelemetryFrame {
        present_start_qpc: seq as i64 * 100,
        present_end_qpc: seq as i64 * 100 + 10,
        release_qpc: seq as i64 * 100 + 20,
        target_tick_qpc: seq as i64 * 100 + 30,
        ema_duration_us_bits: (5000.0 + seq as f32).to_bits(),
        deviation_us_bits: 12.5f32.to_bits(),
        flags: (seq % 2) as u32,
        _pad: 0,
    }
}

fn sample_frame(seq: u64) -> TelemetryFrame {
    TelemetryFrame {
        present_start_qpc: seq as i64 * 1000,
        present_end_qpc: seq as i64 * 1000 + 100,
        release_qpc: seq as i64 * 1000 + 200,
        target_tick_qpc: seq as i64 * 1000 + 300,
        ema_duration_us_bits: (8000.0 + (seq % 100) as f32).to_bits(),
        deviation_us_bits: 15.0f32.to_bits(),
        flags: if seq % 2 == 0 {
            TelemetryFrame::FLAG_BYPASS
        } else {
            TelemetryFrame::FLAG_LATE
        },
        _pad: 0,
    }
}

fn new_ring(cap: usize) -> SharedRing {
    SharedRing::init(SharedRegion::zeroed(total_size(cap)), cap).unwrap()
}

#[test]
fn init_and_attach_roundtrip() {
    let cap = 1024usize;
    let len = total_size(cap);
    let ring = SharedRing::init(SharedRegion::zeroed(len), cap).expect("init");
    let ring = SharedRing::attach(ring.into_region()).expect("attach");
    assert_eq!(ring.capacity(), cap);
}

#[test]
fn push_pop_preserves_order() {
    let mut ring = new_ring(128);
    // Push fewer than capacity: all must succeed and keep order.
    for seq in 0..100u64 {
        assert!(ring.push(&sample_rec(seq)), "push {seq} must succeed");
    }
    for seq in 0..100u64 {
        let rec = ring.pop().expect("pop");
        assert_eq!(rec.present_start_qpc, seq as i64 * 100);
    }
    assert!(ring.pop().is_none());
}

#[test]
fn overflow_drops_oldest_policy_counts_drops() {
    let mut ring = new_ring(16);
    // Push far more than capacity without consuming.
    for seq in 0..40u64 {
        let ok = ring.push(&sample_rec(seq));
        assert_eq!(ok, seq < 16, "push {seq}");
    }
    assert_eq!(ring.dropped(), 24);
    // Ring holds the first 16 records in order.
    for seq in 0..16u64 {
        let rec = ring.pop().unwrap();
        assert_eq!(rec.present_start_qpc, seq as i64 * 100);
    }
}

#[test]
fn config_roundtrip_through_header() {
    let mut ring = new_ring(8);
    let cfg = RuntimeConfig {
        enabled: true,
        mode: PacerMode::FixedVsync,
        target_fps: fx(40.0),
        refresh_hz: fx(120.0),
        vsync_override: true,
        force_waitable: false,
        reflex_mode: ReflexMode::Off,
        overlay_enabled: false,
    };
    ring.set_config(&cfg);
    assert_eq!(ring.config(), cfg);
}

#[test]
fn heartbeat_watchdog_lifecycle() {
    let mut ring = new_ring(8);
    // Headless by default: the hook must trust the config indefinitely.
    assert!(ring.is_host_alive(1_000, 100));
    // A live host bumps the heartbeat.
    ring.update_heartbeat(1_000);
    assert!(ring.is_host_alive(1_050, 100));
    assert!(!ring.is_host_alive(1_200, 100), "stale heartbeat must read as dead");
    // Clock skew (now < last) must not read as dead.
    assert!(ring.is_host_alive(900, 100));
    // CLI one-shot after a UI session: back to headless.
    ring.mark_headless();
    assert!(ring.is_host_alive(9_999, 100));
}

#[test]
fn mapping_sizes_add_up() {
    assert_eq!(std::mem::size_of::<TelemetryFrame>(), 48);
    assert_eq!(RECORD_BYTES, 48);
    assert_eq!(HEADER_BYTES % 64, 0);
    let cap = 4096;
    assert_eq!(total_size(cap), HEADER_BYTES + cap * 48);
    assert_eq!(slots_in(total_size(cap)), cap);
    assert_eq!(slots_in(HEADER_BYTES - 1), 0);
}

#[test]
fn l1_contract_fifo_push_pop_ordering() {
    let mut ring = new_ring(16);

    for i in 0..10 {
        assert!(ring.push(&sample_frame(i)));
    }

    for i in 0..10 {
        let rec = ring.pop().expect("frame must be present");
        assert_eq!(rec.present_start_qpc, i as i64 * 1000);
    }
    assert!(ring.pop().is_none());
}

#[test]
fn l1_contract_drain_helper() {
    let mut ring = new_ring(32);

    for i in 0..15 {
        assert!(ring.push(&sample_frame(i)));
    }

    let mut out = vec![TelemetryFrame::default(); 10];
    let n1 = ring.drain(&mut out);
    assert_eq!(n1, 10);
    assert_eq!(out[0].present_start_qpc, 0);
    assert_eq!(out[9].present_start_qpc, 9000);

    let n2 = ring.drain(&mut out);
    assert_eq!(n2, 5);
    assert_eq!(out[0].present_start_qpc, 10_000);
    assert_eq!(out[4].present_start_qpc, 14_000);

    let n3 = ring.drain(&mut out);
    assert_eq!(n3, 0);
}

#[test]
fn l2_boundary_invalid_capacities_rejected() {
    let len = total_size(1024);

    // Non-power-of-two capacities MUST be rejected
    for invalid_cap in [0, 3, 5, 6, 7, 9, 15, 100, 1000, usize::MAX] {
        let ring = SharedRing::init(SharedRegion::zeroed(len), invalid_cap);
        assert!(ring.is_none(), "Capacity {invalid_cap} must be rejected");
    }
}

#[test]
fn l2_boundary_undersized_buffer_rejected() {
    let cap = 16;
    let required_len = total_size(cap);

    // Buffer smaller by even 1 byte must be rejected
    let ring_short = SharedRing::init(SharedRegion::zeroed(required_len - 1), cap);
    assert!(ring_short.is_none());

    let ring_ok = SharedRing::init(SharedRegion::zeroed(required_len), cap);
    assert!(ring_ok.is_some());
}

#[test]
fn l2_boundary_minimal_capacity_2() {
    let mut ring = new_ring(2);

    assert!(ring.push(&sample_frame(1)));
    assert!(ring.push(&sample_frame(2)));
    // Ring full: next push must fail
    assert!(!ring.push(&sample_frame(3)));
    assert_eq!(ring.dropped(), 1);

    let rec1 = ring.pop().unwrap();
    assert_eq!(rec1.present_start_qpc, 1000);

    // Now slot is free
    assert!(ring.push(&sample_frame(4)));
    assert_eq!(ring.pop().unwrap().present_start_qpc, 2000);
    assert_eq!(ring.pop().unwrap().present_start_qpc, 4000);
    assert!(ring.pop().is_none());
}

#[test]
fn l2_boundary_empty_pop_and_zero_drain() {
    let mut ring = new_ring(8);

    assert!(ring.pop().is_none());

    let mut empty_out: Vec<TelemetryFrame> = Vec::new();
    assert_eq!(ring.drain(&mut empty_out), 0);
}

#[test]
fn l3_property_config_roundtrip_bit_exact() {
    let mut ring = new_ring(16);

    let test_configs = [
        RuntimeConfig {
            enabled: true,
            mode: PacerMode::FixedVsync,
            target_fps: fx(60.0),
            refresh_hz: fx(120.0),
            vsync_override: true,
            force_waitable: false,
            reflex_mode: ReflexMode::Off,
            overlay_enabled: false,
        },
        RuntimeConfig {
            enabled: false,
            mode: PacerMode::Vrr,
            target_fps: fx(144.0),
            refresh_hz: fx(144.0),
            vsync_override: false,
            force_waitable: true,
            reflex_mode: ReflexMode::On,
            overlay_enabled: true,
        },
        RuntimeConfig {
            enabled: true,
            mode: PacerMode::Bypass,
            target_fps: fx(360.0),
            refresh_hz: fx(360.0),
            vsync_override: true,
            force_waitable: true,
            reflex_mode: ReflexMode::Boost,
            overlay_enabled: false,
        },
    ];

    for cfg in test_configs {
        ring.set_config(&cfg);
        let read = ring.config();
        assert_eq!(read, cfg);
    }
}

#[test]
fn l3_property_hook_state_publishing() {
    let mut ring = new_ring(16);

    assert_eq!(ring.hook_state(), 0);
    ring.set_hook_state(1);
    assert_eq!(ring.hook_state(), 1);
    ring.set_hook_state(2);
    assert_eq!(ring.hook_state(), 2);
}

#[test]
fn l4_adversarial_corrupted_header_magic_or_version_refused() {
    // Valid attach first
    let attach_ok = SharedRing::attach(new_ring(16).into_region());
    assert!(attach_ok.is_some());

    // Corrupt magic
    let mut region = new_ring(16).into_region();
    region.header.magic = 0xDEADBEEF;
    assert!(SharedRing::attach(region).is_none());

    // Restore magic, corrupt version
    let mut region = new_ring(16).into_region();
    region.header.magic = SM_MAGIC;
    region.header.version = 999;
    assert!(SharedRing::attach(region).is_none());

    // Restore version, corrupt capacity mask to non-power-of-2
    let mut region = new_ring(16).into_region();
    region.header.version = SM_VERSION;
    region.header.capacity_mask = 100; // cap = 101
    assert!(SharedRing::attach(region).is_none());
}

#[test]
fn l4_adversarial_consumer_lag_fast_forwards_tail_without_panic() {
    let mut ring = new_ring(8);

    for i in 0..20 {
        let _ = ring.push(&sample_frame(i));
    }

    // Attach new consumer
    let mut consumer = SharedRing::attach(ring.into_region()).unwrap();
    // Consumer should not panic and should pop latest valid records
    let mut popped = 0;
    while let Some(_) = consumer.pop() {
        popped += 1;
    }
    assert!(popped <= 8, "Cannot pop more than capacity from unread lag");
}

#[test]
fn a_lapped_reader_gets_only_what_the_ring_still_holds() {
    let mut ring = new_ring(4);
    for i in 0..4 {
        assert!(ring.push(&sample_frame(i)));
    }
    let mut region = ring.into_region();
    // A writer that did not wait for the reader.
    region.header.head = 7;
    let mut ring = SharedRing::attach(region).unwrap();
    let mut n = 0;
    while ring.pop().is_some() {
        n += 1;
    }
    assert_eq!(n, 4);
}

#[test]
fn records_are_neither_lost_nor_made_up() {
    let mut ring = new_ring(8);
    let (mut accepted, mut refused, mut read) = (0u64, 0u64, 0u64);
    for i in 0..1000u64 {
        if ring.push(&sample_frame(i)) {
            accepted += 1;
        } else {
            refused += 1;
        }
        if i % 3 == 0 && ring.pop().is_some() {
            read += 1;
        }
    }
    while ring.pop().is_some() {
        read += 1;
    }
    assert_eq!(accepted + refused, 1000);
    assert_eq!(accepted, read);
    assert_eq!(ring.dropped(), refused);
}

#[test]
fn settings_and_records_do_not_disturb_each_other() {
    let mut ring = new_ring(8);
    assert!(ring.push(&sample_frame(5)));
    let cfg = RuntimeConfig { target_fps: fx(90.0), ..RuntimeConfig::default() };
    ring.set_config(&cfg);
    ring.set_reflex_state(2);
    ring.set_reshade_detected(true);
    assert_eq!(ring.pop().unwrap(), sample_frame(5));
    assert_eq!(ring.config(), cfg);
    assert_eq!(ring.reflex_state(), 2);
    assert!(ring.is_reshade_detected());
}
