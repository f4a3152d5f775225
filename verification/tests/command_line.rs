//! The command line, the hook library's places and the tray.

use iframe::cli::{
    arg_value, capabilities, command, has_flag, holds, hook_wait, inject_target, limit_config,
    pid_of, preferences, released, tune_baseline, tune_paced, tuned, watch_seconds, Command,
    HookWait, Target, HOOK_TIMEOUT_NS,
};
use iframe::config::RuntimeConfig;
use iframe::injector::{candidates, choose_place, dll_name, host_ring, mapping_name, Place};
use iframe::pacer::PacerMode;
use iframe::shared_mem::{total_size, SharedRegion};
use iframe::telemetry::RING_CAPACITY;
use iframe::text::{decimal, parse_number, trim};
use iframe::tray::{icon_rgba, pressed, HotKeyEvent};

/// Fixed-point value of a number.
fn fx(v: f64) -> i64 {
    (v * 1e6).round() as i64
}

fn args(line: &str) -> Vec<String> {
    line.split_whitespace().map(|s| s.to_string()).collect()
}

#[test]
fn commands_are_named_by_the_first_word() {
    for (line, expected) in [
        ("", Command::Ui),
        ("ui", Command::Ui),
        ("list", Command::List),
        ("inject --pid 4", Command::Inject),
        ("watch", Command::Watch),
        ("watch-etw", Command::WatchEtw),
        ("limit", Command::Limit),
        ("bench", Command::Bench),
        ("tune", Command::Tune),
        ("solve-cadence", Command::SolveCadence),
        ("optimize-config", Command::OptimizeConfig),
        ("--help", Command::Help),
        ("-h", Command::Help),
        ("help", Command::Help),
        ("--version", Command::Version),
        ("-V", Command::Version),
        ("List", Command::Unknown),
        ("--pid 4", Command::Unknown),
    ] {
        assert_eq!(command(&args(line)), expected, "{line}");
    }
}

#[test]
fn the_first_occurrence_of_an_option_counts() {
    let a = args("--pid 12 --pid 13 --seconds");
    assert_eq!(arg_value(&a, "--pid").as_deref(), Some("12"));
    assert_eq!(arg_value(&a, "--seconds"), None);
    assert_eq!(arg_value(&a, "--fps"), None);
    assert!(has_flag(&a, "--seconds"));
    assert!(!has_flag(&a, "--second"));
    assert_eq!(pid_of(&a), Some(12));
    assert_eq!(watch_seconds(&a), 5);
    assert_eq!(watch_seconds(&args("--seconds 30")), 30);
    assert_eq!(watch_seconds(&args("--seconds soon")), 5);
}

#[test]
fn numbers_are_read_as_digits_within_range() {
    assert_eq!(parse_number("0", 9), Some(0));
    assert_eq!(parse_number("+7", 9), Some(7));
    assert_eq!(parse_number("007", 9), Some(7));
    assert_eq!(parse_number("10", 9), None);
    assert_eq!(parse_number("", 9), None);
    assert_eq!(parse_number("+", 9), None);
    assert_eq!(parse_number("++1", 9), None);
    assert_eq!(parse_number("-1", 9), None);
    assert_eq!(parse_number(" 1", 9), None);
    assert_eq!(parse_number("1x", 9), None);
    assert_eq!(parse_number("18446744073709551615", u64::MAX), Some(u64::MAX));
    assert_eq!(parse_number("18446744073709551616", u64::MAX), None);
    assert_eq!(parse_number("99999999999999999999999", u64::MAX), None);
    for n in [0, 9, 10, 12_345, u64::MAX] {
        assert_eq!(parse_number(&decimal(n), u64::MAX), Some(n));
        assert_eq!(decimal(n), n.to_string());
    }
}

#[test]
fn an_injection_needs_a_target() {
    assert!(matches!(inject_target(&args("--pid 77")), Target::Pid(77)));
    assert!(matches!(inject_target(&args("--pid x --window Game")), Target::NotANumber));
    assert!(matches!(inject_target(&args("--pid 4294967296")), Target::NotANumber));
    match inject_target(&args("--window Game")) {
        Target::Window(title) => assert_eq!(title, "Game"),
        other => panic!("{other:?}"),
    }
    assert!(matches!(inject_target(&args("--pid")), Target::Missing));
}

#[test]
fn the_wait_for_the_hooks_ends() {
    assert_eq!(hook_wait(1, u64::MAX), HookWait::Installed);
    assert_eq!(hook_wait(2, 0), HookWait::Failed);
    assert_eq!(hook_wait(0, HOOK_TIMEOUT_NS), HookWait::Wait);
    assert_eq!(hook_wait(0, HOOK_TIMEOUT_NS + 1), HookWait::TimedOut);
}

#[test]
fn limits_are_published_as_asked_for() {
    let a = args("--pid 4 --fps 40 --mode vrr --waitable --hold");
    let cfg = limit_config(&a, fx(40.0), fx(120.0));
    assert!(cfg.enabled && cfg.vsync_override && cfg.force_waitable);
    assert_eq!((cfg.mode, cfg.target_fps, cfg.refresh_hz), (PacerMode::Vrr, fx(40.0), fx(120.0)));
    assert!(holds(&a, &cfg));
    let off = released(&cfg);
    assert_eq!(off, RuntimeConfig { enabled: false, ..cfg });
    assert!(!holds(&a, &off));

    assert!(!limit_config(&args("--mode off"), fx(40.0), 0).enabled);
    assert!(!limit_config(&args(""), fx(0.0), 0).enabled);
    assert!(!limit_config(&args("--no-vsync-override"), fx(40.0), 0).vsync_override);
    assert_eq!(limit_config(&args("--mode what"), fx(40.0), 0).mode, PacerMode::FixedVsync);
}

#[test]
fn tuning_measures_with_and_without_the_limiter() {
    assert!(!tune_baseline().enabled);
    let paced = tune_paced(fx(144.0));
    assert!(paced.enabled);
    assert_eq!((paced.target_fps, paced.refresh_hz), (fx(60.0), fx(144.0)));
    let t = tuned(PacerMode::Vrr, fx(72.0), fx(144.0), false);
    assert!(t.enabled && !t.vsync_override);
    assert_eq!((t.mode, t.target_fps), (PacerMode::Vrr, fx(72.0)));
}

#[test]
fn preferences_follow_the_display() {
    let caps = capabilities(&args("--fullscreen"), fx(144.0));
    assert!(caps.has_flip_model && caps.monitor_vrr_capable && caps.is_exclusive_fullscreen);
    assert!(preferences(&args(""), fx(60.0), &caps).prefer_vrr);
    assert!(!preferences(&args("--fixed-vsync"), fx(60.0), &caps).prefer_vrr);
    let caps = capabilities(&args("--no-vrr --no-flip"), fx(60.0));
    assert!(!caps.has_flip_model && !caps.monitor_vrr_capable);
    assert!(!preferences(&args(""), fx(60.0), &caps).prefer_vrr);
    let p = preferences(&args("--vrr --no-vsync-override"), fx(60.0), &caps);
    assert!(p.prefer_vrr && p.prefer_lowest_latency && !p.allow_vsync_override);
}

#[test]
fn the_library_is_looked_for_in_order() {
    assert_eq!(dll_name(Some(true)), "iframe_hook32.dll");
    assert_eq!(dll_name(Some(false)), "iframe_hook.dll");
    assert_eq!(dll_name(None), "iframe_hook.dll");
    let paths = candidates("x.dll");
    assert_eq!(
        paths,
        vec![
            "target/release/x.dll",
            "target/debug/x.dll",
            "target/i686-pc-windows-msvc/release/x.dll",
            "target/i686-pc-windows-msvc/debug/x.dll",
            "x.dll",
        ]
    );
    assert_eq!(choose_place(Some(true), &vec![true; 5]), Place::Beside);
    assert_eq!(choose_place(Some(false), &vec![false, true, true]), Place::Candidate(1));
    assert_eq!(choose_place(Some(false), &vec![false; 5]), Place::Beside);
    assert_eq!(choose_place(None, &vec![false; 5]), Place::Candidate(0));
}

#[test]
fn each_process_has_a_mapping_of_its_own() {
    assert_eq!(mapping_name(1234), "Local\\iFrameSM_1234");
    assert_ne!(mapping_name(1), mapping_name(11));

    let fresh = SharedRegion::zeroed(total_size(RING_CAPACITY));
    assert!(host_ring(fresh, true).is_none());
    let fresh = SharedRegion::zeroed(total_size(RING_CAPACITY));
    let mut ring = host_ring(fresh, false).unwrap();
    ring.set_hook_state(1);
    let taken_over = host_ring(ring.into_region(), true).unwrap();
    assert_eq!(taken_over.hook_state(), 1);
    assert!(host_ring(SharedRegion::zeroed(64), false).is_none());
}

#[test]
fn the_icon_has_a_frame_and_a_line() {
    let icon = icon_rgba();
    assert_eq!(icon.len(), 32 * 32 * 4);
    let pixel = |x: usize, y: usize| &icon[(y * 32 + x) * 4..(y * 32 + x) * 4 + 4];
    assert_eq!(pixel(0, 0), [0x30, 0xE0, 0x6A, 0xFF]);
    assert_eq!(pixel(31, 16), [0x30, 0xE0, 0x6A, 0xFF]);
    assert_eq!(pixel(10, 26), [0x30, 0xE0, 0x6A, 0xFF]);
    assert_eq!(pixel(10, 10), [0x10, 0x14, 0x18, 0xFF]);
}

#[test]
fn only_presses_of_a_hotkey_count() {
    let event = |id: u32, pressed: bool| HotKeyEvent { id, pressed };
    let events = vec![event(1, true), event(1, false), event(2, true), event(3, false)];
    assert_eq!(pressed(&events), vec![1, 2]);
}

#[test]
fn white_space_is_trimmed_at_the_ends() {
    for s in ["", " ", " a b\t", "\u{3000}x\u{a0}", "x", "\u{200b}x", "\u{85}\u{2028}"] {
        assert_eq!(trim(s), s.trim());
    }
}
