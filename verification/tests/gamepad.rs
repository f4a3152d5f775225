//! Polling of a controller.

use iframe::gamepad::{
    GamepadAction, GamepadTracker, PollStep, XInputGamepad, XInputState, LEFT_THUMB_DEADZONE,
    LEFT_THUMB_FAST_THRESHOLD, XINPUT_GAMEPAD_A, XINPUT_GAMEPAD_B, XINPUT_GAMEPAD_DPAD_LEFT,
    XINPUT_GAMEPAD_DPAD_RIGHT, XINPUT_GAMEPAD_LEFT_SHOULDER, XINPUT_GAMEPAD_RIGHT_SHOULDER,
    XINPUT_GAMEPAD_X, XINPUT_GAMEPAD_Y,
};

const MS: u64 = 1_000_000;

fn state(packet: u32, buttons: u16, lx: i16) -> XInputState {
    XInputState {
        dw_packet_number: packet,
        gamepad: XInputGamepad {
            w_buttons: buttons,
            s_thumb_lx: lx,
            ..XInputGamepad::default()
        },
    }
}

/// One poll with the given controllers connected.
fn poll(
    tracker: &mut GamepadTracker,
    now: u64,
    connected: &[u32],
    reading: Option<XInputState>,
) -> Vec<GamepadAction> {
    let mut step = tracker.begin_poll(now);
    loop {
        match step {
            PollStep::Idle => return Vec::new(),
            PollStep::Scan(user) => {
                let packet = if connected.contains(&user) { Some(0) } else { None };
                step = tracker.scanned(user, packet);
            }
            PollStep::Read(_) => return tracker.poll(now, reading),
        }
    }
}

#[test]
fn l0_smoke_gamepad_tracker_creation() {
    let mut tracker = GamepadTracker::new(true);
    let actions = poll(&mut tracker, 0, &[], None);
    // Without a controller connected, actions are empty
    assert!(actions.is_empty() || tracker.is_connected());
}

#[test]
fn l1_contract_deadzone_and_constants() {
    assert_eq!(LEFT_THUMB_DEADZONE, 7849);
    assert_eq!(LEFT_THUMB_FAST_THRESHOLD, 22000);
    assert_eq!(XINPUT_GAMEPAD_DPAD_LEFT, 0x0004);
    assert_eq!(XINPUT_GAMEPAD_DPAD_RIGHT, 0x0008);
    assert_eq!(XINPUT_GAMEPAD_LEFT_SHOULDER, 0x0100);
    assert_eq!(XINPUT_GAMEPAD_RIGHT_SHOULDER, 0x0200);
    assert_eq!(XINPUT_GAMEPAD_A, 0x1000);
    assert_eq!(XINPUT_GAMEPAD_B, 0x2000);
    assert_eq!(XINPUT_GAMEPAD_X, 0x4000);
    assert_eq!(XINPUT_GAMEPAD_Y, 0x8000);
}

#[test]
fn l2_boundary_rapid_polls_do_not_panic() {
    let mut tracker = GamepadTracker::new(true);
    for _ in 0..100 {
        let _ = poll(&mut tracker, 0, &[], None);
    }
}

#[test]
fn the_first_controller_that_answers_is_taken() {
    let mut tracker = GamepadTracker::new(true);
    poll(&mut tracker, 5_000 * MS, &[2, 3], Some(state(1, 0, 0)));
    assert!(tracker.is_connected());
    assert_eq!(tracker.active_controller, Some(2));
    // It goes away.
    poll(&mut tracker, 5_010 * MS, &[], None);
    assert!(!tracker.is_connected());
    assert!(!GamepadTracker::new(false).is_connected());
}

#[test]
fn a_held_button_acts_once() {
    let mut tracker = GamepadTracker::new(true);
    poll(&mut tracker, 5_000 * MS, &[0], Some(state(1, 0, 0)));
    let first = poll(&mut tracker, 5_010 * MS, &[0], Some(state(2, XINPUT_GAMEPAD_Y, 0)));
    assert_eq!(first, vec![GamepadAction::ToggleLimiter]);
    for i in 0..50 {
        let later =
            poll(&mut tracker, (5_020 + i) * MS, &[0], Some(state(3 + i as u32, XINPUT_GAMEPAD_Y, 0)));
        assert!(later.is_empty());
    }
}

#[test]
fn a_stick_in_the_dead_zone_does_nothing_and_repeats_are_throttled() {
    let mut tracker = GamepadTracker::new(true);
    poll(&mut tracker, 5_000 * MS, &[0], Some(state(1, 0, 0)));
    let rest = poll(&mut tracker, 5_010 * MS, &[0], Some(state(2, 0, LEFT_THUMB_DEADZONE)));
    assert!(rest.is_empty());
    let push = poll(&mut tracker, 5_020 * MS, &[0], Some(state(3, 0, 10_000)));
    assert_eq!(push.len(), 1);
    assert!(matches!(push[0], GamepadAction::FpsUp(_)));
    // Held: nothing before the delay, one after it.
    let held = poll(&mut tracker, 5_100 * MS, &[0], Some(state(4, 0, 10_000)));
    assert!(held.is_empty());
    let repeated = poll(&mut tracker, 5_400 * MS, &[0], Some(state(5, 0, 10_000)));
    assert_eq!(repeated.len(), 1);
}
