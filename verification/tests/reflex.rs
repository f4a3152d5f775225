//! The driver's latency mode.

use iframe::config::ReflexMode;
use iframe::reflex::{LatencyMarkerType, ReflexController};

/// Fixed-point value of a number.
fn fx(v: f64) -> i64 {
    (v * 1e6).round() as i64
}

#[test]
fn l0_smoke_reflex_initialization_no_panic() {
    let ctrl = ReflexController::unavailable();
    assert!(!ctrl.is_available());
}

#[test]
fn l1_contract_reflex_set_mode_and_marker() {
    for ctrl in [ReflexController::unavailable(), ReflexController::init(true, true, true)] {
        // Calling configure and marker should be resilient to a missing driver and device
        assert!(ctrl.configure(0, ReflexMode::Off, fx(60.0)).is_none());
        assert!(ctrl.configure(0, ReflexMode::On, fx(60.0)).is_none());
        assert!(ctrl.configure(0, ReflexMode::Boost, fx(120.0)).is_none());

        assert!(ctrl.set_marker(0, LatencyMarkerType::SimulationStart, 1).is_none());
        assert!(ctrl.set_marker(0, LatencyMarkerType::SimulationEnd, 1).is_none());
        assert!(ctrl.set_marker(0, LatencyMarkerType::PresentStart, 1).is_none());
        assert!(ctrl.set_marker(0, LatencyMarkerType::PresentEnd, 1).is_none());

        // Revert to off
        assert!(ctrl.configure(0, ReflexMode::Off, 0).is_none());
    }
}

#[test]
fn l2_boundary_sleep_null_device() {
    let ctrl = ReflexController::init(true, true, true);
    assert!(!ctrl.sleep(0));
    assert!(!ctrl.sleep(0));
    assert!(ctrl.sleep(1));
}

#[test]
fn the_driver_is_called_once_for_a_setting() {
    let mut ctrl = ReflexController::init(true, true, true);
    let params = ctrl.configure(9, ReflexMode::Boost, fx(120.0)).unwrap();
    assert_eq!(params.low_latency_mode, 1);
    assert_eq!(params.low_latency_boost, 1);
    assert_eq!(params.minimum_interval_us, 8_333);
    // A refusal changes nothing.
    assert_eq!(ctrl.configured(9, ReflexMode::Boost, fx(120.0), -1), None);
    assert!(ctrl.configure(9, ReflexMode::Boost, fx(120.0)).is_some());
    assert_eq!(ctrl.configured(9, ReflexMode::Boost, fx(120.0), 0), Some(2));
    assert!(ctrl.configure(9, ReflexMode::Boost, fx(120.0)).is_none());
    // Another device, mode or rate is a new setting.
    assert!(ctrl.configure(10, ReflexMode::Boost, fx(120.0)).is_some());
    assert_eq!(ctrl.configured(9, ReflexMode::Off, 0, 0), Some(1));

    let marker = ctrl.set_marker(9, LatencyMarkerType::PresentEnd, 77).unwrap();
    assert_eq!(marker.frame_id, 77);
    assert_eq!(marker.marker_type, LatencyMarkerType::PresentEnd.as_u32());
}
