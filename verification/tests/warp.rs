//! The frame generator.

use iframe::warp::capture::{choose_output, crop, missed, must_restart, CropBox, Miss, Span};
use iframe::warp::config::{AifSharedHeader, WarpConfig, AIF_MAGIC, AIF_VERSION};
use iframe::warp::control::{
    is_found, is_listed, is_offered, name_or_unknown, plain_path, text_length, ControlCenter,
    Foreground, KeysDown, ProcessInfo, TargetMode, Toggle,
};
use iframe::warp::demo::{frame_pause, mouse_position, Camera};
use iframe::warp::engine::{
    buffer_size, dispatch_size, extra_frames, groups, half, instant_rate, report_frame, smooth,
    DepthCopyTarget, DepthPlan, DepthTracker, FrameClock, HookSwitch, Textures, WarpMotion,
    FORMAT_D24_UNORM_S8_UINT, FORMAT_D32_FLOAT, FORMAT_R24_UNORM_X8_TYPELESS, FORMAT_R32_FLOAT,
};
use iframe::warp::input::{delta_to_angles, InputAccumulator, RawInputListener};
use iframe::warp::presenter::{client_side, plan_step, step_count, Presenter, PresenterTelemetry};

const MS: u64 = 1_000_000;

/// Fixed-point value of a number.
fn fx(v: f64) -> i64 {
    (v * 1e6).round() as i64
}

#[test]
fn test_accumulator_push_and_sample() {
    let mut acc = InputAccumulator::new();
    acc.push_delta(15, -8, 100);
    acc.push_delta(5, 3, 200);
    assert_eq!(acc.peek(), (20, -5));
    let (dx, dy, _ts) = acc.sample_and_reset();
    assert_eq!(dx, 20);
    assert_eq!(dy, -5);

    // After reset, next sample must be 0
    let (dx2, dy2, _) = acc.sample_and_reset();
    assert_eq!(dx2, 0);
    assert_eq!(dy2, 0);
}

#[test]
fn motion_wraps_like_a_counter() {
    let mut acc = InputAccumulator { acc_dx: i32::MAX, acc_dy: i32::MIN, last_event_qpc: 0 };
    acc.push_delta(1, -1, 9);
    assert_eq!(acc.sample_and_reset(), (i32::MIN, i32::MAX, 9));
}

#[test]
fn only_a_mouse_that_moves_counts() {
    let mut l = RawInputListener::new();
    assert!(l.start());
    assert!(!l.start());
    l.on_raw_input(1, 5, 5, 1);
    l.on_raw_input(0, 0, 0, 2);
    assert_eq!(*l.global_input(), InputAccumulator::default());
    l.on_raw_input(0, 5, 0, 3);
    assert_eq!(l.global_input().peek(), (5, 0));
    assert_eq!(delta_to_angles(10, -4, fx(0.0015), fx(0.002)), (fx(0.015), fx(-0.008)));
    assert_eq!(delta_to_angles(i32::MIN, 1, i64::MAX, 1), (i64::MIN, 1));
}

#[test]
fn settings_pass_through_the_header() {
    let mut h = AifSharedHeader::default();
    assert_eq!((h.magic, h.version), (AIF_MAGIC, AIF_VERSION));
    assert_eq!(h.read_config(), WarpConfig::default());
    let cfg = WarpConfig {
        enabled: false,
        yaw_sensitivity: fx(0.01),
        is_reverse_z: true,
        fps_multiplier: 3,
        test_pulse: 7,
        debug_depth: true,
        ..WarpConfig::default()
    };
    h.publish_config(&cfg);
    assert_eq!(h.read_config(), cfg);
    h.trigger_pulse();
    assert_eq!(h.read_config().test_pulse, 8);
    h.test_pulse = u32::MAX;
    h.trigger_pulse();
    assert_eq!(h.test_pulse, 0);
    // Clipping planes are not shared.
    h.publish_config(&WarpConfig { depth_far: 5, ..cfg });
    assert_eq!(h.read_config().depth_far, fx(1000.0));
}

#[test]
fn rates_are_smoothed() {
    assert_eq!(instant_rate(20 * MS), fx(50.0));
    assert_eq!(instant_rate(0), fx(1000.0));
    assert_eq!(smooth(0, fx(50.0), 18), fx(50.0));
    assert_eq!(smooth(fx(100.0), fx(50.0), 18), fx(95.0));
    assert_eq!(smooth(fx(100.0), fx(50.0), 19), fx(97.5));

    let mut h = AifSharedHeader::default();
    h.fps_multiplier = 5;
    let mut clock = FrameClock::new();
    let (cfg, delta) = report_frame(&mut h, &mut clock, true, 100 * MS);
    assert_eq!(delta, 33 * MS);
    assert_eq!(cfg.fps_multiplier, 5);
    assert_eq!(h.game_fps, 30_303_030);
    assert_eq!(h.warped_fps, 3 * 30_303_030);
    assert_eq!((h.hook_state, h.depth_found, h.frames_warped), (1, 1, 5));
    let (_, delta) = report_frame(&mut h, &mut clock, false, 120 * MS);
    assert_eq!(delta, 20 * MS);
    assert_eq!((h.depth_found, h.frames_warped), (0, 10));
}

#[test]
fn frames_in_between_share_the_time() {
    let cfg = WarpConfig { fps_multiplier: 3, ..WarpConfig::default() };
    let x = extra_frames(&cfg, true, 30 * MS);
    assert_eq!((x.count, x.pause_ns), (2, 10 * MS));
    assert_eq!(extra_frames(&cfg, true, 1).pause_ns, 2 * MS);
    assert_eq!(extra_frames(&cfg, true, 1_000 * MS).pause_ns, 33 * MS);
    assert_eq!(extra_frames(&cfg, false, 30 * MS).count, 0);
    assert_eq!(extra_frames(&WarpConfig { enabled: false, ..cfg }, true, 30 * MS).count, 0);
    assert_eq!(extra_frames(&WarpConfig::default(), true, 30 * MS).count, 0);
}

#[test]
fn the_picture_turns_with_the_mouse() {
    let cfg = WarpConfig::default();
    let mut m = WarpMotion::new();
    assert_eq!(m.turn(&cfg, false, 0, 0, 0), (0, 0));
    assert_eq!(m.turn(&cfg, false, 10, -4, 0), (fx(0.015), fx(-0.006)));
    // A frame in between adds up, a frame of the game starts anew.
    assert_eq!(m.turn(&cfg, true, 10, 0, 0), (fx(0.03), fx(-0.006)));
    assert_eq!(m.turn(&cfg, false, 1, 0, 0), (fx(0.0015), 0));
    // One jolt per pulse.
    let pulsed = WarpConfig { test_pulse: 1, ..cfg };
    assert_eq!(m.turn(&pulsed, false, 0, 0, 0), (fx(0.9), 0));
    assert_eq!(m.turn(&pulsed, false, 0, 0, 0), (0, 0));
    // The sway of the test is cut to whole counts.
    let swaying = WarpConfig { test_pulse: 1, continuous_test_wave: true, ..cfg };
    assert_eq!(m.turn(&swaying, false, 0, 0, fx(-2.7)), (fx(-0.003), 0));
    assert_eq!(m.turn(&pulsed, false, 0, 0, fx(-2.7)), (0, 0));
}

#[test]
fn a_depth_buffer_of_the_right_size_is_copied() {
    let mut t = DepthTracker::new();
    assert_eq!(t.plan(8, 4, FORMAT_D32_FLOAT, 8, 4), DepthPlan::Skip);
    t.register_depth_resource();
    assert!(t.has_active_depth());
    assert_eq!(t.plan(8, 4, FORMAT_D32_FLOAT, 8, 5), DepthPlan::Skip);
    let wanted = DepthCopyTarget { width: 8, height: 4, format: FORMAT_R32_FLOAT };
    assert_eq!(t.plan(8, 4, FORMAT_D32_FLOAT, 8, 4), DepthPlan::Recreate(wanted));
    t.recreated(wanted);
    assert_eq!(t.plan(8, 4, FORMAT_D32_FLOAT, 8, 4), DepthPlan::Reuse);
    let packed = DepthCopyTarget { format: FORMAT_R24_UNORM_X8_TYPELESS, ..wanted };
    assert_eq!(t.plan(8, 4, FORMAT_D24_UNORM_S8_UINT, 8, 4), DepthPlan::Recreate(packed));
    assert_eq!(t.plan(8, 4, 999, 8, 4), DepthPlan::Reuse);
}

#[test]
fn work_is_cut_into_groups() {
    assert_eq!(groups(0), 0);
    assert_eq!(groups(1), 1);
    assert_eq!(groups(16), 1);
    assert_eq!(groups(17), 2);
    assert_eq!(groups(u32::MAX), 0x1000_0000);
    assert_eq!(dispatch_size(1920, 1080), Some((120, 68)));
    assert_eq!(dispatch_size(0, 1080), None);
    assert_eq!(dispatch_size(1920, 0), None);
    assert_eq!((half(1), half(7), half(0)), (1, 3, 1));
    assert_eq!(buffer_size(20), 32);
    let mut textures = Textures::new();
    assert!(textures.need(0, 0));
    textures.made(8, 4);
    assert!(!textures.need(8, 4) && textures.need(4, 8));
    let mut hooks = HookSwitch::new();
    assert!(hooks.install());
    assert!(!hooks.install());
}

#[test]
fn a_captured_frame_is_shown_after_the_ones_before_it() {
    let mut p = Presenter::start(640, 360, 0);
    assert!(p.telemetry.is_running);
    let c = p.captured(640, 360, 20 * MS);
    assert!(!c.resize && !c.generate);
    let c = p.captured(800, 600, 40 * MS);
    assert!(c.resize && c.generate);
    assert_eq!(c.dt_ns, 20 * MS);
    assert_eq!(p.telemetry.game_fps, fx(50.0));
    assert_eq!(p.telemetry.frames_captured, 2);

    let n = step_count(2);
    let first = plan_step(1, n, c.dt_ns);
    assert_eq!((first.alpha, first.pristine, first.pause_ns), (fx(0.5), false, 10 * MS));
    let last = plan_step(2, n, c.dt_ns);
    assert_eq!((last.alpha, last.pristine, last.pause_ns), (fx(1.0), true, 0));
    assert_eq!(step_count(0), 1);
    assert_eq!(plan_step(1, 3, 0).alpha, 333_333);

    assert_eq!(p.frame_time_ms(), fx(16.6));
    p.presented(50 * MS);
    assert_eq!(p.telemetry.output_fps, fx(20.0));
    assert_eq!(p.frame_time_ms(), fx(50.0));
    assert_eq!(p.telemetry.frames_presented, 1);
    assert!(p.stop());
    assert!(!p.stop());
    assert_eq!(PresenterTelemetry::new().frames_presented, 0);
}

#[test]
fn the_figures_are_switched_by_a_press() {
    let mut p = Presenter::start(640, 360, 0);
    p.hud_key(true);
    p.hud_key(true);
    assert!(p.show_hud);
    p.hud_key(false);
    p.hud_key(true);
    assert!(!p.show_hud);
    assert_eq!(client_side(0, 99), 100);
    assert_eq!(client_side(-5, 1915), 1920);
    assert_eq!(client_side(i32::MIN, i32::MAX), u32::MAX);
}

#[test]
fn the_window_is_cut_out_of_its_screen() {
    let x = Span { at: 2_000, from: 0, to: 800 };
    let y = Span { at: 100, from: 0, to: 600 };
    assert_eq!(
        crop(x, y, 1_920, 0, 2_560, 1_440),
        Some(CropBox { left: 80, top: 100, right: 880, bottom: 700 })
    );
    // Beyond the left edge and the lower one.
    let x = Span { at: 1_900, from: 0, to: 800 };
    let y = Span { at: 1_000, from: 0, to: 600 };
    assert_eq!(
        crop(x, y, 1_920, 0, 2_560, 1_440),
        Some(CropBox { left: 0, top: 1_000, right: 800, bottom: 1_440 })
    );
    // Off the screen.
    let y = Span { at: 1_440, from: 0, to: 600 };
    assert_eq!(crop(x, y, 1_920, 0, 2_560, 1_440), None);
}

#[test]
fn the_capture_follows_the_window() {
    let outputs = vec![Some(5), None, Some(7), Some(7)];
    assert_eq!(choose_output(&outputs, Some(7)), 2);
    assert_eq!(choose_output(&outputs, Some(8)), 0);
    assert_eq!(choose_output(&outputs, None), 0);
    assert!(must_restart(Some(7), Some(5), true));
    assert!(must_restart(Some(7), None, true));
    assert!(must_restart(None, None, false));
    assert!(!must_restart(None, Some(5), true));
    assert!(!must_restart(Some(5), Some(5), true));
    assert_eq!(missed(0x887A_0027), Miss::NoFrame);
    assert_eq!(missed(0x887A_0026), Miss::Restart);
    assert_eq!(missed(0x8000_4005), Miss::Failed);
}

fn process(pid: u32, name: &str, title: &str) -> ProcessInfo {
    ProcessInfo {
        pid,
        name: name.to_string(),
        window_title: title.to_string(),
        hwnd: pid as usize * 10,
    }
}

fn front(title: &str) -> Option<Foreground> {
    Some(Foreground { hwnd: 1, title: title.to_string() })
}

#[test]
fn the_window_in_front_is_worked_on() {
    let mut c = ControlCenter::new(0);
    assert_eq!(c.resolve_target(&None), None);
    assert_eq!(c.toggle(false, &None), Toggle::NoTarget);
    c.refresh(vec![process(4, "a.exe", "A"), process(5, "b.exe", "B")], 9);
    assert_eq!(c.selected_pid, Some(4));
    assert_eq!(c.resolve_target(&front("Game")), Some(1));
    for title in ["", "Program Manager", "Default IME", "All In Frame \u{2014} Demo"] {
        assert_eq!(c.resolve_target(&front(title)), Some(40), "{title}");
    }
    c.target_mode = TargetMode::ManualSelection;
    c.selected_pid = Some(5);
    assert_eq!(c.toggle(false, &front("Game")), Toggle::Start(50));
    assert_eq!(c.toggle(true, &front("Game")), Toggle::Stop);
    c.refresh(Vec::new(), 10);
    assert_eq!(c.selected_pid, Some(5));
    assert_eq!(c.resolve_target(&None), None);
    assert!(!c.is_refresh_due(10 + 2_999_999_999));
    assert!(c.is_refresh_due(10 + 3_000_000_000));
}

#[test]
fn hotkeys_act_when_they_go_down() {
    let none = KeysDown { ctrl: false, alt: false, f: false, a: false, f11: false };
    let mut c = ControlCenter::new(0);
    assert!(c.close_requested());
    assert!(c.is_minimized);
    let a = c.keys(KeysDown { f11: true, ..none });
    assert!(a.toggle && !a.restore);
    assert!(!c.keys(KeysDown { f11: true, ..none }).toggle);
    c.keys(none);
    assert!(c.keys(KeysDown { ctrl: true, alt: true, f: true, ..none }).toggle);
    assert!(c.is_minimized);
    assert!(c.keys(KeysDown { ctrl: true, alt: true, a: true, ..none }).restore);
    assert!(!c.is_minimized);
    assert!(!c.keys(KeysDown { ctrl: true, a: true, f: true, ..none }).toggle);
    c.minimize_to_tray = false;
    assert!(!c.close_requested());
}

#[test]
fn windows_are_offered_and_searched() {
    assert!(is_offered(true, 4, "Game"));
    assert!(!is_offered(false, 4, "Game"));
    assert!(!is_offered(true, 0, "Game"));
    for title in ["", "Program Manager", "Default IME", "All In Frame"] {
        assert!(!is_offered(true, 4, title), "{title}");
    }
    let p = process(4, "Doom.exe", "DOOM Eternal");
    assert!(is_listed(&p, "doom"));
    assert!(is_listed(&p, "ETERNAL"));
    assert!(is_listed(&p, ""));
    assert!(!is_listed(&p, "quake"));
    assert!(is_found("b", "abc", ""));
    assert_eq!(name_or_unknown(None), "Unknown");
    assert_eq!(name_or_unknown(Some("x".to_string())), "x");
    assert_eq!(plain_path("\\\\?\\C:\\a.dll"), "C:\\a.dll");
    assert_eq!(plain_path("C:\\a.dll"), "C:\\a.dll");
    assert_eq!(text_length(&vec![65, 66, 0, 67]), 2);
    assert_eq!(text_length(&vec![65, 66]), 2);
}

#[test]
fn the_demonstration_camera_is_dragged() {
    assert_eq!(frame_pause(10 * MS), 23 * MS);
    assert_eq!(frame_pause(33 * MS), 0);
    assert_eq!(mouse_position(0xFFFF_0005), (5, -1));
    assert_eq!(mouse_position(0x0010_8000), (-32_768, 16));
    let mut c = Camera::new();
    c.drag(10, 10);
    assert_eq!(c, Camera::new());
    c.press(0, 0);
    c.drag(100, -100);
    assert_eq!((c.yaw, c.pitch), (fx(0.5), fx(-0.5)));
    c.drag(100, 10_000);
    assert_eq!(c.pitch, fx(1.4));
    c.release();
    c.drag(0, 0);
    assert_eq!(c.yaw, fx(0.5));
}

/// Runs of a presenter: each captured frame comes 20 ms after the last.
fn run_of(p: &mut Presenter, frames: u64, multiplier: u32) {
    for i in 1..=frames {
        let c = p.captured(640, 360, i * 20 * MS);
        if c.generate {
            let n = step_count(multiplier);
            for step in 1..=n {
                assert_eq!(plan_step(step, n, c.dt_ns).pristine, step == n);
                p.presented(i * 20 * MS + step as u64 * MS);
            }
        }
    }
}

#[test]
fn every_frame_but_the_first_is_multiplied() {
    for (frames, multiplier, shown) in [(1, 3, 0), (2, 3, 3), (10, 4, 36), (5, 0, 4)] {
        let mut p = Presenter::start(640, 360, 0);
        run_of(&mut p, frames, multiplier);
        assert_eq!(p.telemetry.frames_captured, frames);
        assert_eq!(p.telemetry.frames_presented, shown);
    }
}

#[test]
fn a_restart_counts_on() {
    let mut p = Presenter::start(640, 360, 0);
    run_of(&mut p, 3, 2);
    assert!(p.stop());
    assert_eq!((p.telemetry.frames_captured, p.telemetry.frames_presented), (3, 4));
    let fps = p.telemetry.output_fps;
    assert!(fps > 0);
    let mut q = Presenter::restart(p.telemetry, 800, 600, 90 * MS);
    assert!(q.telemetry.is_running && !q.has_first_frame);
    assert_eq!(q.telemetry.output_fps, fps);
    assert_eq!(q.telemetry.game_fps, fx(50.0));
    // The figures of the new run start from nothing.
    assert_eq!(q.frame_time_ms(), fx(16.6));
    q.captured(800, 600, 100 * MS);
    assert_eq!(q.telemetry.game_fps, fx(100.0));
    assert_eq!(q.telemetry.frames_captured, 4);
    assert_eq!(q.telemetry.output_fps, fps);
}
