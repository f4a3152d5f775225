//! Exact values of the smaller functions.

use std::collections::VecDeque;

use iframe::cli::limit_mode;
use iframe::config::ReflexMode;
use iframe::fixed::{ceil_div, clamp_i64, floor_div, round_div};
use iframe::hooks::dxgi::SwapchainTracker;
use iframe::hooks::vulkan::{device_proc, instance_proc, ProcAnswer};
use iframe::live::{event_rate, samples_of, Sample, TelemetryFeed};
use iframe::overlay::{
    detail_text, draw_string, headline_text, Colour, OverlayState, Quad, Style, PX,
};
use iframe::pacer::{wide_qpc_to_us, JitPacer, PacerConfig, PacerMode};
use iframe::panel::Settings;
use iframe::profiles::default_reflex_mode;
use iframe::shared_mem::{SharedHeader, SharedRegion, SharedRing, TelemetryFrame};
use iframe::stats::spread_of;
use iframe::telemetry::{
    config_in_force, paced_frame, pass_through_frame, Telemetry, RING_CAPACITY,
};
use iframe::text::{comes_before, ends_with, file_name, same, same_in_lower_case};
use iframe::warp::engine::pause;

#[test]
fn divisions_round_as_they_say() {
    assert_eq!(floor_div(-7, 2), -4);
    assert_eq!(floor_div(7, 2), 3);
    assert_eq!(ceil_div(-7, 2), -3);
    assert_eq!(ceil_div(7, 2), 4);
    assert_eq!(round_div(5, 2), 3);
    assert_eq!(round_div(-5, 2), -3);
    assert_eq!(round_div(4, 3), 1);
    assert_eq!(clamp_i64(1 << 70), i64::MAX);
    assert_eq!(clamp_i64(-(1 << 70)), i64::MIN);
    assert_eq!(clamp_i64(-3), -3);
    assert_eq!(spread_of(&vec![1, 5, 3], 3), 8);
}

#[test]
fn texts_are_compared() {
    assert!(same("vgk.exe", "vgk.exe"));
    assert!(!same("vgk.exe", "vgk.ex"));
    assert!(same_in_lower_case("VGK.Exe", "vgk.exe"));
    assert!(!same_in_lower_case("vgk.exe", "VGK.exe"));
    assert!(ends_with("game.exe", ".exe"));
    assert!(!ends_with("exe", ".exe"));
    assert!(comes_before("a.exe", "b.exe"));
    assert!(comes_before("a", "ab"));
    assert!(!comes_before("ab", "ab"));
    assert_eq!(file_name("C:\\games/sub\\game.exe"), "game.exe");
    assert_eq!(file_name("game.exe"), "game.exe");
    assert_eq!(file_name("games\\"), "");
}

#[test]
fn overlay_lines_are_written_out() {
    assert_eq!(headline_text(59_940_000, 16_683_000), "iFrame: 59.9 FPS (16.68ms)");
    assert_eq!(headline_text(0, 999_999_999), "iFrame: 0.0 FPS (1000.00ms)");
    // Halves go to the even digit.
    assert_eq!(headline_text(60_250_000, 16_125_000), "iFrame: 60.2 FPS (16.12ms)");
    assert_eq!(headline_text(60_750_000, 16_375_000), "iFrame: 60.8 FPS (16.38ms)");
    assert_eq!(headline_text(144_060_000, 6_005_001), "iFrame: 144.1 FPS (6.01ms)");
    assert_eq!(detail_text("VRR", "Boost"), "Mode: VRR | Reflex: Boost");
}

#[test]
fn a_bar_is_seven_dots_and_a_space_moves_the_pen() {
    let style = Style { x: 10 * PX, y: 20 * PX, scale: 2 * PX, colour: Colour::Detail };
    let mut quads: Vec<Quad> = Vec::new();
    draw_string(&mut quads, &style, " |");
    assert_eq!(quads.len(), 7);
    // Four dots for the space, two columns into the bar.
    assert!(quads.iter().all(|q| q.x == (10 + (4 + 2) * 2) * PX));
    assert_eq!(quads[0].y, 20 * PX);
    assert_eq!(quads[6].y, (20 + 6 * 2) * PX);
    assert!(quads.iter().all(|q| q.w == 2 * PX && q.h == 2 * PX));
}

#[test]
fn resizing_drops_the_target_alone() {
    let mut state = OverlayState::new(7);
    state.has_target = true;
    state.buffer_created(512);
    state.on_resize();
    assert!(!state.has_target);
    assert!(state.has_buffer);
    assert_eq!(state.buffer_capacity, 512);
}

#[test]
fn header_finds_its_slots() {
    let mut h = SharedHeader::zeroed();
    assert!(!h.initialise(4, 8));
    assert!(!h.initialise(16, 6));
    assert!(h.initialise(16, 8));
    assert_eq!(h.write_slot(), Some(0));
    assert_eq!(h.read_slot(), None);
    h.head = 9;
    h.tail = 3;
    assert_eq!(h.write_slot(), Some(1));
    assert_eq!(h.read_slot(), Some((3, 3)));
    h.head = 11;
    assert_eq!(h.write_slot(), None);
    // A reader that fell behind skips what is gone.
    h.head = 20;
    assert_eq!(h.read_slot(), Some((12, 4)));
}

#[test]
fn records_carry_their_flags() {
    let plain = pass_through_frame(10, 20);
    assert_eq!((plain.present_start_qpc, plain.present_end_qpc, plain.release_qpc), (10, 20, 20));
    assert_eq!(plain.flags, TelemetryFrame::FLAG_BYPASS);
    let mut rec = TelemetryFrame::default();
    rec.set_bypass(false);
    assert_eq!(rec.flags, 0);
    rec.set_bypass(true);
    assert_eq!(rec.flags, TelemetryFrame::FLAG_BYPASS);
    // The flag is only ever set.
    rec.set_bypass(false);
    assert_eq!(rec.flags, TelemetryFrame::FLAG_BYPASS);

    let mut pacer = JitPacer::new(PacerConfig::default(), 10_000_000);
    let d = pacer.on_present_complete(1_000, 2_000, None);
    let paced = paced_frame(1_000, 2_000, 3_000, &d, true, 7, 9);
    assert_eq!(paced.release_qpc, 3_000);
    assert_eq!(paced.target_tick_qpc, 2_000);
    assert_eq!((paced.ema_duration_us_bits, paced.deviation_us_bits), (7, 9));
    assert_eq!(
        paced.flags,
        TelemetryFrame::FLAG_BYPASS | TelemetryFrame::FLAG_VSYNC_OVERRIDE
    );

    let region = SharedRegion::zeroed(iframe::shared_mem::total_size(RING_CAPACITY));
    let mut t = Telemetry::new(SharedRing::init(region, RING_CAPACITY));
    t.record_paced(1_000, 2_000, 3_000, &d, true, 7, 9);
    let mut region = match t.ring() {
        Some(ring) => {
            assert_eq!(ring.header().head, 1);
            SharedRegion::zeroed(0)
        }
        None => panic!("no ring"),
    };
    region.header.magic = 1;
    let mut none = Telemetry::new(SharedRing::attach(region));
    none.record_paced(1_000, 2_000, 3_000, &d, true, 7, 9);
    assert!(none.ring().is_none());
}

#[test]
fn batches_are_taken_in_order() {
    let frames: Vec<TelemetryFrame> =
        (0..4).map(|i| pass_through_frame(1_000_000 + i * 100_000, 1_000_010 + i * 100_000)).collect();
    let mut whole = TelemetryFeed::new(10_000_000);
    whole.ingest_batch(&frames, 3, false);
    let mut each = TelemetryFeed::new(10_000_000);
    for f in &frames[..3] {
        each.ingest(f, false);
    }
    assert_eq!(whole.total, each.total);
    assert_eq!(whole.samples, each.samples);
    assert_eq!(whole.last_present, Some(1_200_000));
}

#[test]
fn rates_and_copies() {
    // Three events in 30 ms are a hundred in a second.
    assert_eq!(event_rate(3, 30_000_000_000), 100_000_000);
    assert_eq!(event_rate(3, 0), 0);
    let mut samples = VecDeque::new();
    samples.push_back(Sample { t_qpc: 1, ft_us: 2 });
    samples.push_back(Sample { t_qpc: 3, ft_us: 4 });
    assert_eq!(samples_of(&samples), samples);
    assert_eq!(wide_qpc_to_us(25, 10_000_000), 2_500_000);
    assert_eq!(wide_qpc_to_us(25, 0), 0);
    assert_eq!(pause(10_000_000, 2), 5_000_000);
    assert_eq!(pause(1_000_000, 2), 2_000_000);
    assert_eq!(pause(1_000_000_000, 2), 33_000_000);
}

#[test]
fn requests_for_functions_are_answered() {
    assert_eq!(device_proc("vkQueuePresentKHR"), ProcAnswer::Present);
    assert_eq!(device_proc("vkGetDeviceProcAddr"), ProcAnswer::DeviceProcAddr);
    assert_eq!(device_proc("vkGetInstanceProcAddr"), ProcAnswer::PassThrough);
    assert_eq!(instance_proc("vkGetInstanceProcAddr"), ProcAnswer::InstanceProcAddr);
    assert_eq!(instance_proc("vkQueuePresentKHR"), ProcAnswer::Present);
    assert_eq!(instance_proc("vkQueueSubmit"), ProcAnswer::PassThrough);
}

#[test]
fn a_new_swapchain_takes_over() {
    let mut t = SwapchainTracker::new();
    assert!(t.is_active_swapchain(5));
    assert!(!t.is_active_swapchain(6));
    assert!(t.is_active_swapchain(5));
    t.on_swapchain_created(6, true, 0);
    assert!(t.is_active_swapchain(6));
}

#[test]
fn settings_and_modes_have_their_words() {
    let arg = |m: &str| vec!["--mode".to_string(), m.to_string()];
    assert_eq!(limit_mode(&arg("vrr")), PacerMode::Vrr);
    assert_eq!(limit_mode(&arg("off")), PacerMode::Bypass);
    assert_eq!(limit_mode(&arg("vsync")), PacerMode::FixedVsync);
    assert_eq!(limit_mode(&Vec::new()), PacerMode::FixedVsync);
    assert_eq!(default_reflex_mode(), "off");

    let mut s = Settings::default();
    s.mode = PacerMode::Vrr;
    s.reflex_mode = ReflexMode::Boost;
    s.force_waitable = true;
    s.refresh_hz = 144_000_000;
    assert_eq!(Settings::from_profile(&s.profile()), s);
    let last = s.farewell();
    assert!(!last.enabled && !last.force_waitable && !last.overlay_enabled);
    assert_eq!(last.mode, PacerMode::Vrr);
    assert_eq!(last.refresh_hz, 0);
    assert_eq!(last.reflex_mode, ReflexMode::Off);
}

#[test]
fn a_dead_panel_lets_the_game_go() {
    let mut h = SharedHeader::zeroed();
    let cfg = iframe::config::RuntimeConfig {
        enabled: true,
        target_fps: 60_000_000,
        overlay_enabled: true,
        ..Default::default()
    };
    h.set_config(&cfg);
    // Published without a panel: in force for good.
    assert_eq!(config_in_force(&h, 1_000_000_000, 10), cfg);
    h.host_present = 1;
    h.host_heartbeat_qpc = 100;
    assert_eq!(config_in_force(&h, 129, 10), cfg);
    let late = config_in_force(&h, 130, 10);
    assert!(!late.enabled && late.overlay_enabled);
    assert_eq!(late.target_fps, 60_000_000);
    // A clock that runs behind is no dead panel.
    assert_eq!(config_in_force(&h, 50, 10), cfg);
    assert!(!Telemetry::new(None).live_config(5, 10).enabled);
}

#[test]
fn dots_stop_at_the_edge_of_what_can_be_represented() {
    let style = Style { x: i64::MAX - 5, y: i64::MIN, scale: i64::MAX, colour: Colour::Detail };
    let mut quads: Vec<Quad> = Vec::new();
    draw_string(&mut quads, &style, "|");
    assert_eq!(quads.len(), 7);
    assert!(quads.iter().all(|q| q.x == i64::MAX));
    assert_eq!(quads[0].y, i64::MIN);
    assert_eq!(quads[1].y, -1);
    assert_eq!(quads[3].y, i64::MAX);
}
