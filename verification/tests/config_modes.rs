//! Settings, pacing modes and their codes.

use iframe::config::{GameProfile, ReflexMode, RuntimeConfig};
use iframe::pacer::{PacerConfig, PacerMode};
use iframe::{iframe_abi_version, iframe_ping};

/// Fixed-point value of a number; a NaN is below everything.
fn fx(v: f64) -> i64 {
    if v.is_nan() {
        i64::MIN
    } else {
        (v * 1e6).round() as i64
    }
}

#[test]
fn l0_smoke_runtime_config_defaults() {
    let cfg = RuntimeConfig::default();
    assert!(!cfg.enabled);
    assert_eq!(cfg.mode, PacerMode::FixedVsync);
    assert_eq!(cfg.target_fps, fx(60.0));
    assert_eq!(cfg.refresh_hz, fx(60.0));
    assert!(cfg.vsync_override);
    assert!(!cfg.force_waitable);
}

#[test]
fn l0_smoke_game_profile_defaults() {
    let prof = GameProfile::default();
    assert!(prof.exe_name.is_empty());
    assert_eq!(prof.target_fps, fx(60.0));
    assert_eq!(prof.mode, PacerMode::FixedVsync);
    assert!(prof.vsync_override);
    assert!(!prof.force_waitable_object);
}

#[test]
fn l1_contract_pacer_mode_u32_conversion() {
    assert_eq!(PacerMode::from_u32(0), PacerMode::Vrr);
    assert_eq!(PacerMode::from_u32(1), PacerMode::FixedVsync);
    assert_eq!(PacerMode::from_u32(2), PacerMode::Bypass);
}

#[test]
fn l1_contract_pacer_config_for_mode() {
    let cfg_vsync = PacerConfig::for_mode(PacerMode::FixedVsync, fx(144.0));
    assert_eq!(cfg_vsync.mode, PacerMode::FixedVsync);
    assert_eq!(cfg_vsync.target_fps, fx(144.0));
    assert_eq!(cfg_vsync.base_safety_margin_us, fx(250.0));
    assert_eq!(cfg_vsync.variance_multiplier as i64, fx(2.0));

    let cfg_vrr = PacerConfig::for_mode(PacerMode::Vrr, fx(40.0));
    assert_eq!(cfg_vrr.mode, PacerMode::Vrr);
    assert_eq!(cfg_vrr.target_fps, fx(40.0));
    assert_eq!(cfg_vrr.base_safety_margin_us, fx(50.0));
    assert_eq!(cfg_vrr.variance_multiplier as i64, fx(2.0));

    let cfg_bypass = PacerConfig::for_mode(PacerMode::Bypass, fx(0.0));
    assert_eq!(cfg_bypass.mode, PacerMode::Bypass);
    assert_eq!(cfg_bypass.base_safety_margin_us, fx(0.0));
}

#[test]
fn l2_boundary_extreme_fps_rates() {
    let boundary_fps = [
        0.0,
        -0.0,
        -1.0,
        -1000.0,
        0.0001,
        1.0,
        144.0,
        360.0,
        10_000.0,
        f64::MIN_POSITIVE,
        f64::MAX,
        f64::NAN,
        f64::INFINITY,
        f64::NEG_INFINITY,
    ];

    for &fps in &boundary_fps {
        let p_cfg = PacerConfig::for_mode(PacerMode::FixedVsync, fx(fps));
        if fps.is_finite() {
            assert_eq!(p_cfg.target_fps, fx(fps));
        }
    }
}

#[test]
fn l3_property_runtime_config_equality_and_clone() {
    let cfg1 = RuntimeConfig {
        enabled: true,
        mode: PacerMode::Vrr,
        target_fps: fx(119.88),
        refresh_hz: fx(120.0),
        vsync_override: false,
        force_waitable: true,
        reflex_mode: ReflexMode::Off,
        overlay_enabled: false,
    };
    let cfg2 = cfg1;
    assert_eq!(cfg1, cfg2);
}

#[test]
fn l4_adversarial_invalid_mode_ids_fallback_to_bypass() {
    let invalid_ids = [3, 4, 10, 100, 999, u32::MAX];
    for &id in &invalid_ids {
        assert_eq!(
            PacerMode::from_u32(id),
            PacerMode::Bypass,
            "Mode ID {id} should fallback to Bypass"
        );
    }
}

#[test]
fn l9_negative_space_default_runtime_config_inert() {
    let cfg = RuntimeConfig::default();
    assert!(!cfg.enabled, "Default config must NOT be enabled automatically");
    assert!(!cfg.force_waitable, "Default config must NOT force waitable swapchains");
}

#[test]
fn latency_modes_have_codes_of_their_own() {
    for mode in [ReflexMode::Off, ReflexMode::On, ReflexMode::Boost] {
        assert_eq!(ReflexMode::from_u32(mode.as_u32()), mode);
    }
    assert_eq!(ReflexMode::from_u32(3), ReflexMode::Off);
    assert_eq!(ReflexMode::from_u32(u32::MAX), ReflexMode::Off);
    assert_eq!(ReflexMode::default(), ReflexMode::Off);
}

#[test]
fn l0_smoke_abi_exports() {
    assert_eq!(iframe_ping(), 0x4946_524D);
    assert_eq!(iframe_abi_version(), 1);
}
