//! The control panel and what it shows.

use std::collections::VecDeque;

use iframe::config::{ReflexMode, RuntimeConfig};
use iframe::display::{
    connection, effective_refresh, graph, is_message_shown, is_refresh_due, reflex_badge, verdict,
    Connection, DisplaySnapshot, Journal, ReflexBadge, SideSummary, Verdict,
};
use iframe::gamepad::GamepadAction;
use iframe::live::{LiveStats, Sample};
use iframe::pacer::PacerMode;
use iframe::panel::{
    is_found, is_listed, next_preset, prev_preset, profile_name, Added, Panel, Running, Settings,
    UiTab, WindowEntry,
};
use iframe::profiles::{GameProfile, Profiles};
use iframe::tray::{presses, MenuEntry, TrayAction, WindowState};

const SECOND: u64 = 1_000_000_000;

/// Fixed-point value of a number.
fn fx(v: f64) -> i64 {
    (v * 1e6).round() as i64
}

fn panel() -> Panel {
    Panel::new(Profiles::new(0))
}

fn attached(exe: &str) -> Panel {
    let mut p = panel();
    p.attaching(7);
    p.attach_done(Some(exe.to_string()), 0);
    p
}

#[test]
fn the_monitoring_page_comes_first() {
    assert_eq!(UiTab::default(), UiTab::Monitoring);
    let p = panel();
    assert!(!p.attached && p.pending.is_none());
    assert_eq!(p.settings, Settings::default());
}

#[test]
fn attaching_publishes_the_settings_of_the_game() {
    let mut p = panel();
    let stored = GameProfile {
        target_fps: fx(90.0),
        mode: "vrr".to_string(),
        vsync_override: false,
        auto_attach: true,
        force_waitable: true,
        refresh_hz: fx(165.0),
        reflex_mode: "boost".to_string(),
        overlay_enabled: true,
    };
    p.profiles.set("game.exe", stored, 0);
    p.attaching(7);
    assert_eq!(p.pending, Some(7));
    let d = p.attach_done(Some("game.exe".to_string()), 2 * SECOND);
    assert!(p.attached && p.mapped && p.pending.is_none());
    assert_eq!(
        d.publish,
        Some(RuntimeConfig {
            enabled: true,
            mode: PacerMode::Vrr,
            target_fps: fx(90.0),
            refresh_hz: fx(165.0),
            vsync_override: false,
            force_waitable: true,
            reflex_mode: ReflexMode::Boost,
            overlay_enabled: true,
        })
    );
    assert!(d.write);
    assert!(p.settings.auto_attach);

    // A second outcome while attached is dropped.
    let d = p.attach_done(Some("other.exe".to_string()), 3 * SECOND);
    assert_eq!((d.publish, d.write), (None, false));
    assert_eq!(p.exe_name.as_deref(), Some("game.exe"));
}

#[test]
fn a_game_that_comes_back_gets_its_settings_back() {
    let mut p = attached("game.exe");
    p.settings.target_fps = fx(48.0);
    p.settings.mode = PacerMode::Vrr;
    p.push_config(SECOND);
    let before = p.settings;
    p.detach();
    p.settings = Settings::default();
    p.attach_done(Some("game.exe".to_string()), 5 * SECOND);
    assert_eq!(p.settings, before);
}

#[test]
fn detaching_leaves_the_game_alone() {
    let mut p = attached("game.exe");
    p.settings.overlay_enabled = true;
    p.settings.reflex_mode = ReflexMode::Boost;
    let cfg = p.detach().unwrap();
    assert!(!cfg.enabled && !cfg.overlay_enabled && !cfg.force_waitable);
    assert_eq!((cfg.reflex_mode, cfg.refresh_hz), (ReflexMode::Off, 0));
    assert!(!p.attached && !p.mapped && p.exe_name.is_none());
    assert!(p.detach().is_none());

    let mut watched = panel();
    watched.watch_only(Some("valorant.exe".to_string()));
    assert!(watched.attached && !watched.mapped);
    assert!(watched.push_config(0).publish.is_none());
    assert!(watched.detach().is_none());
}

#[test]
fn a_failed_attempt_is_forgotten() {
    let mut p = panel();
    p.attaching(9);
    p.attach_failed();
    assert!(p.pending.is_none() && !p.attached);
}

#[test]
fn the_limiter_toggles() {
    let mut p = attached("game.exe");
    let d = p.toggle_limiter(0);
    assert_eq!(p.settings.mode, PacerMode::Bypass);
    assert!(!d.publish.unwrap().enabled);
    let d = p.act(GamepadAction::ToggleLimiter, 0);
    assert_eq!(p.settings.mode, PacerMode::FixedVsync);
    assert!(d.publish.unwrap().enabled);
}

#[test]
fn a_controller_moves_the_rate_within_its_reach() {
    let mut p = attached("game.exe");
    p.act(GamepadAction::FpsUp(1000), 0);
    assert_eq!(p.settings.target_fps, fx(480.0));
    p.act(GamepadAction::FpsDown(1000), 0);
    assert_eq!(p.settings.target_fps, fx(10.0));
    p.act(GamepadAction::FpsUp(5), 0);
    assert_eq!(p.settings.target_fps, fx(15.0));
    p.act(GamepadAction::NextPreset, 0);
    assert_eq!(p.settings.target_fps, fx(30.0));
    let d = p.act(GamepadAction::PrevPreset, 0);
    assert_eq!(p.settings.target_fps, fx(30.0));
    assert!(d.publish.is_none());
    p.act(GamepadAction::ToggleBigPicture, 0);
    assert!(p.big_picture_mode);
}

#[test]
fn presets_are_at_least_half_a_frame_away() {
    assert_eq!(next_preset(fx(59.4)), Some(fx(60.0)));
    assert_eq!(next_preset(fx(59.5)), Some(fx(90.0)));
    assert_eq!(next_preset(fx(240.0)), None);
    assert_eq!(prev_preset(fx(60.5)), Some(fx(40.0)));
    assert_eq!(prev_preset(fx(60.6)), Some(fx(60.0)));
    assert_eq!(prev_preset(fx(1000.0)), Some(fx(240.0)));
    assert_eq!(prev_preset(i64::MIN), None);
    assert_eq!(next_preset(i64::MAX), None);
}

#[test]
fn the_picked_window_is_attached_to() {
    let mut p = panel();
    assert_eq!(p.act(GamepadAction::Attach, 0).attach, None);
    let window = |pid: u32| WindowEntry { pid, title: format!("w{pid}") };
    p.refresh_windows(vec![window(4), window(5)]);
    assert_eq!((p.windows[0].pid, p.windows[0].title.as_str()), (4, "w4"));
    assert_eq!((p.windows[1].pid, p.windows[1].title.as_str()), (5, "w5"));
    p.selected_window = 1;
    assert_eq!(p.act(GamepadAction::Attach, 0).attach, Some(5));
    p.refresh_windows(vec![window(6)]);
    assert_eq!(p.selected_window, 0);
    p.attach_done(None, 0);
    assert_eq!(p.act(GamepadAction::Attach, 0).attach, None);
}

#[test]
fn games_are_attached_to_by_themselves_on_request() {
    let mut p = panel();
    assert!(!p.begin_scan(0));
    p.act(GamepadAction::ToggleAutoAttach, 0);
    assert!(p.begin_scan(0));
    assert!(!p.begin_scan(SECOND));
    assert!(p.begin_scan(2 * SECOND));

    let wanted = GameProfile { auto_attach: true, ..GameProfile::default() };
    p.profiles.set("b.exe", wanted, 0);
    p.profiles.set("a.exe", GameProfile::default(), 0);
    let run = |pid: u32, exe: Option<&str>| Running { pid, exe: exe.map(|e| e.to_string()) };
    let running = vec![run(1, None), run(2, Some("a.exe")), run(3, Some("b.exe"))];
    assert_eq!(p.auto_target(&running), Some(3));
    assert_eq!(p.auto_target(&vec![run(2, Some("a.exe"))]), None);

    // The flag also goes to the profile of the attached game.
    let mut p = attached("c.exe");
    p.settings.target_fps = fx(33.0);
    p.toggle_auto_attach(0);
    let kept = p.profiles.get("c.exe").unwrap();
    assert!(kept.auto_attach);
    assert_eq!(kept.target_fps, fx(60.0));
}

#[test]
fn new_profiles_get_a_proper_name() {
    let mut p = panel();
    assert!(matches!(p.add_profile("   ", 0), Added::Nothing));
    match p.add_profile("  My GAME ", 2 * SECOND) {
        Added::Done(exe, write) => {
            assert_eq!(exe, "my game.exe");
            assert!(write);
        }
        other => panic!("{other:?}"),
    }
    assert!(matches!(p.add_profile("MY GAME.EXE", 2 * SECOND), Added::Exists(_)));
    assert!(matches!(p.add_named("\u{438}\u{433}\u{440}\u{430}", 2 * SECOND), Added::Done(_, false)));
    assert_eq!(profile_name("").as_deref(), None);
    assert_eq!(profile_name(".exe").as_deref(), Some(".exe"));
    assert_eq!(profile_name("exe").as_deref(), Some("exe.exe"));
    // Lower case is that of all scripts.
    match p.add_profile("\u{418}\u{413}\u{420}\u{410}.exe", 2 * SECOND) {
        Added::Exists(exe) => assert_eq!(exe, "\u{438}\u{433}\u{440}\u{430}.exe"),
        other => panic!("{other:?}"),
    }
}

#[test]
fn a_search_ignores_case_and_space() {
    assert!(is_listed("Game.exe", " gAME "));
    assert!(is_listed("Game.exe", "  "));
    assert!(!is_listed("Game.exe", "mod"));
    assert!(is_found("game.exe", "me.e"));
    assert!(!is_found("game.exe", "Game"));
}

#[test]
fn an_edited_profile_of_the_attached_game_is_published() {
    let mut p = attached("game.exe");
    let edited = GameProfile { target_fps: fx(30.0), ..GameProfile::default() };
    assert!(p.edit_profile("other.exe", edited.clone(), 0).publish.is_none());
    assert_eq!(p.profiles.get("other.exe").unwrap().target_fps, fx(30.0));
    assert!(p.edit_profile("game.exe", edited, 0).publish.is_some());
}

fn side(total: u64, p50: f64, p99: f64) -> SideSummary {
    SideSummary {
        fps: fx(60.0),
        p50_us: fx(p50),
        p99_us: fx(p99),
        total,
        hold_p50_us: 0,
        wait_p50_us: 0,
        has_timing: true,
    }
}

#[test]
fn the_verdict_is_earned() {
    let rough = side(100, 10_000.0, 14_000.0);
    let smooth = side(100, 16_667.0, 17_167.0);
    assert_eq!(verdict(&rough, &smooth), Verdict::Smoother(fx(8.0)));
    assert_eq!(verdict(&smooth, &rough), Verdict::Steady);
    assert_eq!(verdict(&side(9, 0.0, 9_000.0), &smooth), Verdict::Unknown);
    assert_eq!(verdict(&rough, &side(9, 0.0, 0.0)), Verdict::Unknown);
    // At least ten microseconds of jitter are taken, and at least a tenth of praise given.
    assert_eq!(verdict(&rough, &side(100, 5.0, 5.0)), Verdict::Smoother(fx(400.0)));
    assert_eq!(
        verdict(&rough, &side(100, 10_000.0, 13_999.0)),
        Verdict::Smoother(fx(1.1))
    );
    assert_eq!(verdict(&side(100, 5.0, 40.0), &side(100, 5.0, 5.0)), Verdict::Steady);
    assert_eq!(side(1, 5.0, 9.0).jitter_us(), 0);
    assert_eq!(side(2, 5.0, 9.0).jitter_us(), fx(4.0));
    assert_eq!(side(2, 9.0, 5.0).jitter_us(), 0);
    assert!(!side(1, 0.0, 0.0).is_shown() && side(2, 0.0, 0.0).is_timing_shown());
    assert!(!side(79, 0.0, 0.0).is_tunable() && side(80, 0.0, 0.0).is_tunable());
}

#[test]
fn figures_are_renewed_and_messages_fade() {
    assert!(is_refresh_due(None, 0));
    assert!(!is_refresh_due(Some(0), 249_999_999));
    assert!(is_refresh_due(Some(0), 250_000_000));
    assert!(is_message_shown(SECOND, 4 * SECOND));
    assert!(!is_message_shown(SECOND, 5 * SECOND));
    let mut stats = LiveStats::default();
    stats.late = 3;
    stats.on.total = 9;
    let d = DisplaySnapshot::of(&stats);
    assert_eq!((d.late, d.on.total, d.off.total), (3, 9, 0));
}

#[test]
fn states_have_their_badges() {
    assert_eq!(connection(5, Some(6)), Connection::Attached(5));
    assert_eq!(connection(0, Some(6)), Connection::Attaching);
    assert_eq!(connection(0, None), Connection::Idle);
    assert_eq!(reflex_badge(0), ReflexBadge::Hidden);
    assert_eq!(reflex_badge(1), ReflexBadge::Sleep);
    assert_eq!(reflex_badge(2), ReflexBadge::Boost);
    assert_eq!(reflex_badge(0xFF), ReflexBadge::Unavailable);
    assert_eq!(effective_refresh(fx(1.0)), fx(144.0));
    assert_eq!(effective_refresh(fx(60.0)), fx(60.0));
}

#[test]
fn the_graph_shows_the_last_seconds() {
    let sample = |t: i64| Sample { t_qpc: t, ft_us: 1 };
    let samples: VecDeque<Sample> = [0, 100, 1_200, 1_300, 1_301].map(sample).into();
    assert_eq!(graph(&samples, 1_300, 100), vec![sample(1_200), sample(1_300)]);
    assert_eq!(graph(&samples, 1_100, 100), vec![sample(0), sample(100)]);
}

#[test]
fn the_journal_keeps_the_last_lines() {
    let mut j = Journal::new();
    j.note(9, 5, 0, "started");
    assert_eq!(j.lines[0], "[09:05:00] started");
    for i in 0..60u16 {
        j.note(10, 0, i, "tick");
    }
    assert_eq!(j.lines.len(), 50);
    assert_eq!(j.lines[0], "[10:00:10] tick");
    assert_eq!(j.lines[49], "[10:00:59] tick");
}

#[test]
fn recommendations_are_taken_over() {
    let mut p = attached("game.exe");
    let d = p.apply_tuning(fx(72.0), PacerMode::Vrr, false, 0);
    let cfg = d.publish.unwrap();
    assert_eq!((cfg.target_fps, cfg.mode, cfg.vsync_override), (fx(72.0), PacerMode::Vrr, false));
    let cfg = p.apply_cadence(fx(48.0), 0).publish.unwrap();
    assert_eq!((cfg.target_fps, cfg.mode), (fx(48.0), PacerMode::FixedVsync));
    let cfg = p.apply_optimized(PacerMode::Vrr, true, true, 0).publish.unwrap();
    assert_eq!((cfg.target_fps, cfg.mode), (fx(48.0), PacerMode::Vrr));
    assert!(cfg.vsync_override && cfg.force_waitable);
    let d = p.change(Settings { target_fps: 0, ..p.settings }, 5 * SECOND);
    assert!(!d.publish.unwrap().enabled);
    assert!(d.write);
    assert!(panel().change(Settings::default(), 0).publish.is_none());
}

#[test]
fn the_tray_shows_and_hides_the_window() {
    let mut w = WindowState::new();
    assert_eq!(w.menu(MenuEntry::Show), TrayAction::Hide);
    assert_eq!(w.menu(MenuEntry::Show), TrayAction::Show);
    assert_eq!(w.menu(MenuEntry::Limiter), TrayAction::ToggleLimiter);
    assert_eq!(w.menu(MenuEntry::Quit), TrayAction::Quit);
    assert_eq!(w.level_change(), Some(true));
    assert_eq!(w.level_change(), None);
    w.always_on_top = false;
    assert_eq!(w.level_change(), Some(false));
    assert!(w.first_draw() && !w.first_draw());
    assert_eq!(presses(&vec![3, 4, 3], 3), 2);
}
