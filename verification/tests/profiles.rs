//! The profiles of games.

use iframe::config::ReflexMode;
use iframe::pacer::PacerMode;
use iframe::profiles::{
    mode_word, parse_mode, parse_reflex, reflex_word, Entry, GameProfile, Profiles,
};

const SECOND: u64 = 1_000_000_000;

/// Fixed-point value of a number.
fn fx(v: f64) -> i64 {
    (v * 1e6).round() as i64
}

#[test]
fn l0_smoke_game_profile_default() {
    let p = GameProfile::default();
    assert_eq!(p.target_fps, fx(60.0));
    assert_eq!(p.mode, "vsync");
    assert!(p.vsync_override);
    assert!(!p.auto_attach);
    assert!(!p.force_waitable);
    assert_eq!(p.reflex_mode, "off");
    assert!(!p.overlay_enabled);
}

#[test]
fn l1_contract_profiles_manager_import_export() {
    let mut profiles = Profiles::new(0);
    let test_exe = "test_game_roundtrip_unit.exe";
    let prof = GameProfile {
        target_fps: fx(120.0),
        mode: "vsync".into(),
        vsync_override: true,
        auto_attach: true,
        force_waitable: false,
        refresh_hz: fx(120.0),
        reflex_mode: "on".into(),
        overlay_enabled: true,
    };
    profiles.set(test_exe, prof.clone(), 0);

    let exported = profiles.list();
    assert!(exported.iter().any(|e| e.exe == "test_game_roundtrip_unit.exe"));
    assert!(exported.iter().any(|e| e.profile.reflex_mode == "on"));
    assert!(exported.iter().any(|e| e.profile.overlay_enabled));

    let imported_count = profiles.import(&exported, 0);
    assert!(imported_count >= 1);

    let fetched = profiles.get(test_exe).expect("profile must exist");
    assert_eq!(fetched.target_fps, fx(120.0));
    assert_eq!(fetched.reflex_mode, "on");
    assert!(fetched.overlay_enabled);

    assert!(profiles.remove(test_exe, 0));
    assert!(profiles.get(test_exe).is_none());
}

#[test]
fn special_names_are_kept_apart_and_in_order() {
    let names = [
        "Cyberpunk 2077.exe",
        "Witcher 3 - Wild Hunt.exe",
        "Игра.exe",
        "ゲーム.exe",
        "game_v1.0.0.exe",
        "foo/bar/baz.exe",
    ];
    let mut profiles = Profiles::new(0);
    for (i, name) in names.iter().enumerate() {
        let p = GameProfile { target_fps: i as i64, ..GameProfile::default() };
        profiles.set(name, p, 0);
    }
    for (i, name) in names.iter().enumerate() {
        assert_eq!(profiles.get(name).unwrap().target_fps, i as i64);
    }
    let listed: Vec<String> = profiles.list().into_iter().map(|e| e.exe).collect();
    let mut expected: Vec<String> = names.iter().map(|n| n.to_string()).collect();
    expected.sort();
    assert_eq!(listed, expected);
    assert_eq!(profiles.all_games().len(), names.len());
    assert!(profiles.get("Game_v1.0.0.exe").is_none());
}

#[test]
fn writes_are_at_most_one_per_second() {
    let mut profiles = Profiles::new(10 * SECOND);
    assert!(!profiles.set("a.exe", GameProfile::default(), 10 * SECOND + 1));
    assert!(profiles.dirty);
    assert!(!profiles.flush_due(10 * SECOND + SECOND / 2));
    assert!(profiles.flush_due(11 * SECOND));
    assert!(!profiles.dirty);
    assert!(!profiles.flush(11 * SECOND));
    // A change after a quiet time is written at once.
    assert!(profiles.set("a.exe", GameProfile::default(), 20 * SECOND));
    // Pending changes are written on the way out.
    assert!(!profiles.set("b.exe", GameProfile::default(), 20 * SECOND));
    assert!(profiles.flush(20 * SECOND));
}

#[test]
fn removing_what_is_not_there_changes_nothing() {
    let mut profiles = Profiles::new(0);
    profiles.set("a.exe", GameProfile::default(), 0);
    assert!(!profiles.remove("b.exe", 0));
    assert!(profiles.get("a.exe").is_some());
    assert!(profiles.dirty);
}

#[test]
fn an_import_replaces_what_it_names_and_keeps_the_rest() {
    let entry = |exe: &str, fps: f64| Entry {
        exe: exe.to_string(),
        profile: GameProfile { target_fps: fx(fps), ..GameProfile::default() },
    };
    let mut profiles = Profiles::loaded(&vec![entry("a.exe", 30.0), entry("b.exe", 40.0)], 0);
    let n = profiles.import(&vec![entry("b.exe", 50.0), entry("c.exe", 60.0), entry("c.exe", 70.0)], 5);
    assert_eq!(n, 3);
    assert_eq!(profiles.get("a.exe").unwrap().target_fps, fx(30.0));
    assert_eq!(profiles.get("b.exe").unwrap().target_fps, fx(50.0));
    assert_eq!(profiles.get("c.exe").unwrap().target_fps, fx(70.0));
    assert_eq!(profiles.list().len(), 3);
    assert_eq!(profiles.last_save_ns, 5);
}

#[test]
fn words_of_a_profile_are_read_back() {
    for mode in [PacerMode::Vrr, PacerMode::FixedVsync, PacerMode::Bypass] {
        assert_eq!(parse_mode(&mode_word(mode)), mode);
    }
    for mode in [ReflexMode::Off, ReflexMode::On, ReflexMode::Boost] {
        assert_eq!(parse_reflex(&reflex_word(mode)), mode);
    }
    assert_eq!(parse_mode("VRR"), PacerMode::FixedVsync);
    assert_eq!(parse_mode(""), PacerMode::FixedVsync);
    assert_eq!(parse_reflex("Boost"), ReflexMode::Off);
}
