//! Gamepad input: which controller to read, and which actions a reading triggers.
//!
//! Reading a controller is the caller's business. A poll is a conversation: the
//! tracker says what to read next ([`PollStep`]), the caller answers, until a
//! reading of the active controller yields its actions. Instants are nanoseconds of
//! a monotonic clock.

use vstd::prelude::*;

verus! {

pub const XINPUT_GAMEPAD_DPAD_UP: u16 = 0x0001;

pub const XINPUT_GAMEPAD_DPAD_DOWN: u16 = 0x0002;

pub const XINPUT_GAMEPAD_DPAD_LEFT: u16 = 0x0004;

pub const XINPUT_GAMEPAD_DPAD_RIGHT: u16 = 0x0008;

pub const XINPUT_GAMEPAD_START: u16 = 0x0010;

pub const XINPUT_GAMEPAD_BACK: u16 = 0x0020;

pub const XINPUT_GAMEPAD_LEFT_THUMB: u16 = 0x0040;

pub const XINPUT_GAMEPAD_RIGHT_THUMB: u16 = 0x0080;

pub const XINPUT_GAMEPAD_LEFT_SHOULDER: u16 = 0x0100;

pub const XINPUT_GAMEPAD_RIGHT_SHOULDER: u16 = 0x0200;

pub const XINPUT_GAMEPAD_A: u16 = 0x1000;

pub const XINPUT_GAMEPAD_B: u16 = 0x2000;

pub const XINPUT_GAMEPAD_X: u16 = 0x4000;

pub const XINPUT_GAMEPAD_Y: u16 = 0x8000;

/// Stick deflection up to which the left stick counts as centred.
pub const LEFT_THUMB_DEADZONE: i16 = 7849;

/// Stick deflection beyond which the frame rate steps faster.
pub const LEFT_THUMB_FAST_THRESHOLD: i16 = 22000;

/// Controllers that can be connected.
pub const USER_COUNT: u32 = 4;

/// While no controller is connected, they are looked for this often (2 s).
pub const RESCAN_NS: u64 = 2_000_000_000;

/// A held direction repeats after this delay (300 ms) ...
pub const REPEAT_DELAY_NS: u64 = 300_000_000;

/// ... and then at this interval (60 ms).
pub const REPEAT_INTERVAL_NS: u64 = 60_000_000;

/// Buttons, triggers and sticks of a controller.
#[derive(Debug, Clone, Copy, PartialEq, Eq, Structural)]
pub struct XInputGamepad {
    pub w_buttons: u16,
    pub b_left_trigger: u8,
    pub b_right_trigger: u8,
    pub s_thumb_lx: i16,
    pub s_thumb_ly: i16,
    pub s_thumb_rx: i16,
    pub s_thumb_ry: i16,
}

/// A reading of a controller.
#[derive(Debug, Clone, Copy, PartialEq, Eq, Structural)]
pub struct XInputState {
    pub dw_packet_number: u32,
    pub gamepad: XInputGamepad,
}

impl Default for XInputGamepad {
    fn default() -> (pad: XInputGamepad)
        ensures
            pad == (XInputGamepad {
                w_buttons: 0,
                b_left_trigger: 0,
                b_right_trigger: 0,
                s_thumb_lx: 0,
                s_thumb_ly: 0,
                s_thumb_rx: 0,
                s_thumb_ry: 0,
            }),
    {
        XInputGamepad {
            w_buttons: 0,
            b_left_trigger: 0,
            b_right_trigger: 0,
            s_thumb_lx: 0,
            s_thumb_ly: 0,
            s_thumb_rx: 0,
            s_thumb_ry: 0,
        }
    }
}

impl Default for XInputState {
    fn default() -> (state: XInputState)
        ensures
            state.dw_packet_number == 0,
            state.gamepad == (XInputGamepad {
                w_buttons: 0,
                b_left_trigger: 0,
                b_right_trigger: 0,
                s_thumb_lx: 0,
                s_thumb_ly: 0,
                s_thumb_rx: 0,
                s_thumb_ry: 0,
            }),
    {
        XInputState { dw_packet_number: 0, gamepad: XInputGamepad::default() }
    }
}

/// What a controller asks of the panel.
#[derive(Debug, Clone, Copy, PartialEq, Eq, Structural)]
pub enum GamepadAction {
    FpsDown(i32),
    FpsUp(i32),
    NextPreset,
    PrevPreset,
    ToggleLimiter,
    ToggleAutoAttach,
    Attach,
    ToggleBigPicture,
}

/// What a poll needs next.
#[derive(Debug, Clone, Copy, PartialEq, Eq, Structural)]
pub enum PollStep {
    /// Nothing: the poll is over.
    Idle,
    /// Whether a controller answers at this index; report it with
    /// [`GamepadTracker::scanned`].
    Scan(u32),
    /// A reading of this controller; report it with [`GamepadTracker::poll`].
    Read(u32),
}

/// Direction in which a controller steps the frame rate.
#[derive(Debug, Clone, Copy, PartialEq, Eq, Structural)]
pub enum Direction {
    Neutral,
    Down,
    Up,
}

/// Tracks the active controller, button edges and held directions.
#[derive(Debug, Clone, Copy, PartialEq, Eq, Structural)]
pub struct GamepadTracker {
    /// The input library could be loaded.
    pub available: bool,
    pub active_controller: Option<u32>,
    pub last_disconnect_scan: Option<u64>,
    pub last_buttons: u16,
    pub last_packet: u32,
    /// Direction held for stepping, since when, and when it last repeated.
    pub held_dir: Direction,
    pub hold_start: Option<u64>,
    pub last_repeat: u64,
    pub connected: bool,
}

/// Nanoseconds from `earlier` to `now`, zero where the clock went backwards.
pub open spec fn elapsed(now: u64, earlier: u64) -> int {
    if now >= earlier {
        now - earlier
    } else {
        0
    }
}

fn since(now: u64, earlier: u64) -> (ns: u64)
    ensures
        ns == elapsed(now, earlier),
{
    if now >= earlier { now - earlier } else { 0 }
}

/// A button of `mask` is down now and none was before.
pub open spec fn pressed(buttons: u16, before: u16, mask: u16) -> bool {
    buttons & mask != 0 && before & mask == 0
}

fn is_pressed(buttons: u16, before: u16, mask: u16) -> (b: bool)
    ensures
        b == pressed(buttons, before, mask),
{
    buttons & mask != 0 && before & mask == 0
}

pub open spec fn when(cond: bool, action: GamepadAction) -> Seq<GamepadAction> {
    if cond {
        seq![action]
    } else {
        Seq::empty()
    }
}

/// Actions that button presses trigger, in order.
pub open spec fn button_actions(now: u16, before: u16) -> Seq<GamepadAction> {
    when(pressed(now, before, XINPUT_GAMEPAD_A), GamepadAction::Attach) + when(
        pressed(now, before, XINPUT_GAMEPAD_Y),
        GamepadAction::ToggleLimiter,
    ) + when(pressed(now, before, XINPUT_GAMEPAD_X), GamepadAction::ToggleAutoAttach) + when(
        pressed(now, before, XINPUT_GAMEPAD_BACK) || pressed(
            now,
            before,
            XINPUT_GAMEPAD_LEFT_THUMB,
        ),
        GamepadAction::ToggleBigPicture,
    ) + when(pressed(now, before, XINPUT_GAMEPAD_LEFT_SHOULDER), GamepadAction::PrevPreset) + when(
        pressed(now, before, XINPUT_GAMEPAD_RIGHT_SHOULDER),
        GamepadAction::NextPreset,
    )
}

impl XInputGamepad {
    /// The direction that the pad or the left stick points in; left wins.
    pub open spec fn direction(self) -> Direction {
        if self.w_buttons & XINPUT_GAMEPAD_DPAD_LEFT != 0 || self.s_thumb_lx
            < -LEFT_THUMB_DEADZONE {
            Direction::Down
        } else if self.w_buttons & XINPUT_GAMEPAD_DPAD_RIGHT != 0 || self.s_thumb_lx
            > LEFT_THUMB_DEADZONE {
            Direction::Up
        } else {
            Direction::Neutral
        }
    }

    /// Frames per second that one step is worth: the stick pushed hard steps faster.
    pub open spec fn step(self) -> i32 {
        match self.direction() {
            Direction::Down if self.s_thumb_lx < -LEFT_THUMB_FAST_THRESHOLD => 5,
            Direction::Up if self.s_thumb_lx > LEFT_THUMB_FAST_THRESHOLD => 5,
            _ => 1,
        }
    }
}

impl GamepadTracker {
    /// The pad's direction was not held before.
    pub open spec fn starts_hold(self, pad: XInputGamepad) -> bool {
        pad.direction() != Direction::Neutral && pad.direction() != self.held_dir
    }

    /// The held direction is due to repeat.
    pub open spec fn repeats(self, pad: XInputGamepad, now: u64) -> bool {
        &&& pad.direction() != Direction::Neutral
        &&& pad.direction() == self.held_dir
        &&& self.hold_start is Some
        &&& elapsed(now, self.hold_start->0) >= REPEAT_DELAY_NS
        &&& elapsed(now, self.last_repeat) >= REPEAT_INTERVAL_NS
    }

    pub open spec fn step_actions(self, pad: XInputGamepad, now: u64) -> Seq<GamepadAction> {
        if self.starts_hold(pad) || self.repeats(pad, now) {
            if pad.direction() == Direction::Up {
                seq![GamepadAction::FpsUp(pad.step())]
            } else {
                seq![GamepadAction::FpsDown(pad.step())]
            }
        } else {
            Seq::empty()
        }
    }

    /// The tracker after its controller did not answer.
    pub open spec fn lost(self) -> GamepadTracker {
        GamepadTracker {
            active_controller: None,
            connected: false,
            last_buttons: 0,
            held_dir: Direction::Neutral,
            hold_start: None,
            ..self
        }
    }

    /// The tracker after a reading.
    pub open spec fn after_reading(self, state: XInputState, now: u64) -> GamepadTracker {
        let pad = state.gamepad;
        GamepadTracker {
            connected: true,
            last_buttons: pad.w_buttons,
            last_packet: state.dw_packet_number,
            held_dir: pad.direction(),
            hold_start: if pad.direction() == Direction::Neutral {
                None
            } else if self.starts_hold(pad) {
                Some(now)
            } else {
                self.hold_start
            },
            last_repeat: if self.starts_hold(pad) || self.repeats(pad, now) {
                now
            } else {
                self.last_repeat
            },
            ..self
        }
    }

    /// A tracker without a controller; `available` says whether readings can be had.
    pub fn new(available: bool) -> (tracker: GamepadTracker)
        ensures
            tracker == (GamepadTracker {
                available,
                active_controller: None,
                last_disconnect_scan: None,
                last_buttons: 0,
                last_packet: 0,
                held_dir: Direction::Neutral,
                hold_start: None,
                last_repeat: 0,
                connected: false,
            }),
    {
        GamepadTracker {
            available,
            active_controller: None,
            last_disconnect_scan: None,
            last_buttons: 0,
            last_packet: 0,
            held_dir: Direction::Neutral,
            hold_start: None,
            last_repeat: 0,
            connected: false,
        }
    }

    pub fn is_connected(&self) -> (b: bool)
        ensures
            b == self.connected,
    {
        self.connected
    }

    /// Too little time has passed since controllers were last looked for.
    pub open spec fn rests(self, now: u64) -> bool {
        self.last_disconnect_scan is Some && elapsed(now, self.last_disconnect_scan->0) < RESCAN_NS
    }

    /// Starts a poll.
    pub fn begin_poll(&mut self, now: u64) -> (step: PollStep)
        ensures
            step == if !old(self).available {
                PollStep::Idle
            } else if old(self).active_controller is Some {
                PollStep::Read(old(self).active_controller->0)
            } else if old(self).rests(now) {
                PollStep::Idle
            } else {
                PollStep::Scan(0)
            },
            *final(self) == if step is Scan {
                GamepadTracker { last_disconnect_scan: Some(now), ..*old(self) }
            } else {
                *old(self)
            },
    {
        if !self.available {
            return PollStep::Idle;
        }
        match self.active_controller {
            Some(user) => PollStep::Read(user),
            None => {
                match self.last_disconnect_scan {
                    Some(last) => {
                        if since(now, last) < RESCAN_NS {
                            return PollStep::Idle;
                        }
                    },
                    None => {},
                }
                self.last_disconnect_scan = Some(now);
                PollStep::Scan(0)
            },
        }
    }

    /// Reports whether a controller answered at index `user`, with its packet number.
    /// The first one that answers becomes the active controller.
    pub fn scanned(&mut self, user: u32, packet: Option<u32>) -> (step: PollStep)
        ensures
            step == match packet {
                Some(_) => PollStep::Read(user),
                None => if user + 1 < USER_COUNT {
                    PollStep::Scan((user + 1) as u32)
                } else {
                    PollStep::Idle
                },
            },
            *final(self) == match packet {
                Some(number) => GamepadTracker {
                    active_controller: Some(user),
                    connected: true,
                    last_packet: number,
                    ..*old(self)
                },
                None => if user + 1 < USER_COUNT {
                    *old(self)
                } else {
                    GamepadTracker { connected: false, ..*old(self) }
                },
            },
    {
        match packet {
            Some(number) => {
                self.active_controller = Some(user);
                self.connected = true;
                self.last_packet = number;
                PollStep::Read(user)
            },
            None => {
                if user < USER_COUNT - 1 {
                    PollStep::Scan(user + 1)
                } else {
                    self.connected = false;
                    PollStep::Idle
                }
            },
        }
    }

    /// Reports a reading of the active controller, `None` where it did not answer, and
    /// returns the actions that it triggers.
    pub fn poll(&mut self, now: u64, reading: Option<XInputState>) -> (actions: Vec<GamepadAction>)
        ensures
            reading is None ==> actions@.len() == 0 && *final(self) == old(self).lost(),
            reading is Some ==> {
                let state = reading->0;
                let pad = state.gamepad;
                &&& actions@ == button_actions(pad.w_buttons, old(self).last_buttons) + old(
                    self,
                ).step_actions(pad, now)
                &&& *final(self) == old(self).after_reading(state, now)
            },
    {
        let state = match reading {
            None => {
                self.active_controller = None;
                self.connected = false;
                self.last_buttons = 0;
                self.held_dir = Direction::Neutral;
                self.hold_start = None;
                return Vec::new();
            },
            Some(state) => state,
        };
        let pad = state.gamepad;
        let mut actions = press_actions(pad.w_buttons, self.last_buttons);
        let direction = pad.held_direction();
        let mut steps: bool = false;
        if direction == Direction::Neutral {
            self.hold_start = None;
        } else if self.held_dir != direction {
            self.hold_start = Some(now);
            steps = true;
        } else {
            match self.hold_start {
                Some(start) => {
                    steps = since(now, start) >= REPEAT_DELAY_NS && since(now, self.last_repeat)
                        >= REPEAT_INTERVAL_NS;
                },
                None => {},
            }
        }
        if steps {
            self.last_repeat = now;
            let step: i32 = pad.step_size();
            if direction == Direction::Up {
                actions.push(GamepadAction::FpsUp(step));
            } else {
                actions.push(GamepadAction::FpsDown(step));
            }
        }
        assert(actions@ =~= button_actions(pad.w_buttons, old(self).last_buttons) + old(
            self,
        ).step_actions(pad, now));
        self.held_dir = direction;
        self.connected = true;
        self.last_buttons = pad.w_buttons;
        self.last_packet = state.dw_packet_number;
        actions
    }
}

fn push_when(actions: &mut Vec<GamepadAction>, cond: bool, action: GamepadAction)
    ensures
        final(actions)@ == old(actions)@ + when(cond, action),
{
    if cond {
        actions.push(action);
    }
    assert(actions@ =~= old(actions)@ + when(cond, action));
}

fn press_actions(now: u16, before: u16) -> (actions: Vec<GamepadAction>)
    ensures
        actions@ == button_actions(now, before),
{
    let mut actions: Vec<GamepadAction> = Vec::new();
    let attach: bool = is_pressed(now, before, XINPUT_GAMEPAD_A);
    let limiter: bool = is_pressed(now, before, XINPUT_GAMEPAD_Y);
    let auto_attach: bool = is_pressed(now, before, XINPUT_GAMEPAD_X);
    let big_picture: bool = is_pressed(now, before, XINPUT_GAMEPAD_BACK) || is_pressed(
        now,
        before,
        XINPUT_GAMEPAD_LEFT_THUMB,
    );
    let previous: bool = is_pressed(now, before, XINPUT_GAMEPAD_LEFT_SHOULDER);
    let next: bool = is_pressed(now, before, XINPUT_GAMEPAD_RIGHT_SHOULDER);
    push_when(&mut actions, attach, GamepadAction::Attach);
    assert(actions@ =~= when(attach, GamepadAction::Attach));
    push_when(&mut actions, limiter, GamepadAction::ToggleLimiter);
    push_when(&mut actions, auto_attach, GamepadAction::ToggleAutoAttach);
    push_when(&mut actions, big_picture, GamepadAction::ToggleBigPicture);
    push_when(&mut actions, previous, GamepadAction::PrevPreset);
    push_when(&mut actions, next, GamepadAction::NextPreset);
    actions
}

impl XInputGamepad {
    fn held_direction(&self) -> (d: Direction)
        ensures
            d == self.direction(),
    {
        if self.w_buttons & XINPUT_GAMEPAD_DPAD_LEFT != 0 || self.s_thumb_lx < -LEFT_THUMB_DEADZONE {
            Direction::Down
        } else if self.w_buttons & XINPUT_GAMEPAD_DPAD_RIGHT != 0 || self.s_thumb_lx
            > LEFT_THUMB_DEADZONE {
            Direction::Up
        } else {
            Direction::Neutral
        }
    }

    fn step_size(&self) -> (step: i32)
        ensures
            step == self.step(),
    {
        let fast: bool = match self.held_direction() {
            Direction::Down => self.s_thumb_lx < -LEFT_THUMB_FAST_THRESHOLD,
            Direction::Up => self.s_thumb_lx > LEFT_THUMB_FAST_THRESHOLD,
            Direction::Neutral => false,
        };
        if fast { 5 } else { 1 }
    }
}

/// A button that is kept down triggers its action once: reading the same buttons
/// again triggers none.
pub proof fn law_held_buttons_trigger_once(tracker: GamepadTracker, state: XInputState, now: u64)
    ensures
        button_actions(
            state.gamepad.w_buttons,
            tracker.after_reading(state, now).last_buttons,
        ).len() == 0,
{
}

/// A direction that is kept held repeats no sooner than the delay after it was first
/// held, and no sooner than the interval after it last stepped.
pub proof fn law_repeats_are_throttled(
    tracker: GamepadTracker,
    first: XInputState,
    again: XInputState,
    t0: u64,
    t1: u64,
)
    requires
        tracker.starts_hold(first.gamepad),
        again.gamepad.direction() == first.gamepad.direction(),
        t0 <= t1,
    ensures
        ({
            let held = tracker.after_reading(first, t0);
            &&& tracker.step_actions(first.gamepad, t0).len() == 1
            &&& held.step_actions(again.gamepad, t1).len() == if t1 - t0 >= REPEAT_DELAY_NS {
                1int
            } else {
                0int
            }
            &&& forall|t2: u64, later: XInputState|
                #![trigger held.after_reading(again, t1).step_actions(later.gamepad, t2)]
                t1 - t0 >= REPEAT_DELAY_NS && t1 <= t2 && later.gamepad.direction()
                    == first.gamepad.direction() ==> (held.after_reading(again, t1).step_actions(
                    later.gamepad,
                    t2,
                ).len() == 1 <==> t2 - t1 >= REPEAT_INTERVAL_NS)
        }),
{
}

/// A stick inside the dead zone does nothing.
pub proof fn law_dead_zone_is_quiet(tracker: GamepadTracker, pad: XInputGamepad, now: u64)
    requires
        -LEFT_THUMB_DEADZONE <= pad.s_thumb_lx <= LEFT_THUMB_DEADZONE,
        pad.w_buttons & XINPUT_GAMEPAD_DPAD_LEFT == 0,
        pad.w_buttons & XINPUT_GAMEPAD_DPAD_RIGHT == 0,
    ensures
        tracker.step_actions(pad, now).len() == 0,
{
}

/// A controller that stops answering is forgotten, and the next poll looks for one
/// again as soon as the last search is old enough.
pub proof fn law_lost_controller_is_searched_again(tracker: GamepadTracker, now: u64)
    ensures
        tracker.lost().active_controller is None,
        !tracker.lost().connected,
        tracker.lost().rests(now) == tracker.rests(now),
{
}

proof fn lemma_when(a: Seq<GamepadAction>, cond: bool, x: GamepadAction, y: GamepadAction)
    ensures
        (a + when(cond, x)).contains(y) <==> a.contains(y) || (cond && x == y),
        a.no_duplicates() && !a.contains(x) ==> (a + when(cond, x)).no_duplicates(),
{
    let b = a + when(cond, x);
    if a.contains(y) {
        let i = choose|i: int| 0 <= i < a.len() && a[i] == y;
        assert(b[i] == y);
    }
    if cond {
        assert(b[a.len() as int] == x);
    } else {
        assert(b =~= a);
    }
}

/// What the buttons do, each when it is pressed and once: A attaches, Y turns the limiter
/// on or off, X the automatic attaching, back or the left stick the big picture, and the
/// shoulders change the preset. No other button does anything.
pub proof fn law_buttons_have_their_actions(now: u16, before: u16)
    ensures
        ({
            let actions = button_actions(now, before);
            &&& actions.no_duplicates()
            &&& actions.contains(GamepadAction::Attach) <==> now & 0x1000 != 0 && before & 0x1000
                == 0
            &&& actions.contains(GamepadAction::ToggleLimiter) <==> now & 0x8000 != 0 && before
                & 0x8000 == 0
            &&& actions.contains(GamepadAction::ToggleAutoAttach) <==> now & 0x4000 != 0 && before
                & 0x4000 == 0
            &&& actions.contains(GamepadAction::ToggleBigPicture) <==> (now & 0x20 != 0 && before
                & 0x20 == 0) || (now & 0x40 != 0 && before & 0x40 == 0)
            &&& actions.contains(GamepadAction::PrevPreset) <==> now & 0x100 != 0 && before & 0x100
                == 0
            &&& actions.contains(GamepadAction::NextPreset) <==> now & 0x200 != 0 && before & 0x200
                == 0
            &&& forall|n: i32|
                !#[trigger] actions.contains(GamepadAction::FpsUp(n)) && !actions.contains(
                    GamepadAction::FpsDown(n),
                )
        }),
{
    lemma_actions(now, before, GamepadAction::Attach);
    lemma_actions(now, before, GamepadAction::ToggleLimiter);
    lemma_actions(now, before, GamepadAction::ToggleAutoAttach);
    lemma_actions(now, before, GamepadAction::ToggleBigPicture);
    lemma_actions(now, before, GamepadAction::PrevPreset);
    lemma_actions(now, before, GamepadAction::NextPreset);
    let actions = button_actions(now, before);
    assert forall|n: i32|
        !#[trigger] actions.contains(GamepadAction::FpsUp(n)) && !actions.contains(
            GamepadAction::FpsDown(n),
        ) by {
        lemma_actions(now, before, GamepadAction::FpsUp(n));
        lemma_actions(now, before, GamepadAction::FpsDown(n));
    }
}

proof fn lemma_actions(now: u16, before: u16, y: GamepadAction)
    ensures
        ({
            let actions = button_actions(now, before);
            &&& actions.no_duplicates()
            &&& actions.contains(y) <==> match y {
                GamepadAction::Attach => pressed(now, before, XINPUT_GAMEPAD_A),
                GamepadAction::ToggleLimiter => pressed(now, before, XINPUT_GAMEPAD_Y),
                GamepadAction::ToggleAutoAttach => pressed(now, before, XINPUT_GAMEPAD_X),
                GamepadAction::ToggleBigPicture => pressed(now, before, XINPUT_GAMEPAD_BACK)
                    || pressed(now, before, XINPUT_GAMEPAD_LEFT_THUMB),
                GamepadAction::PrevPreset => pressed(now, before, XINPUT_GAMEPAD_LEFT_SHOULDER),
                GamepadAction::NextPreset => pressed(now, before, XINPUT_GAMEPAD_RIGHT_SHOULDER),
                _ => false,
            }
        }),
{
    let attach = pressed(now, before, XINPUT_GAMEPAD_A);
    let limiter = pressed(now, before, XINPUT_GAMEPAD_Y);
    let auto_attach = pressed(now, before, XINPUT_GAMEPAD_X);
    let big = pressed(now, before, XINPUT_GAMEPAD_BACK) || pressed(
        now,
        before,
        XINPUT_GAMEPAD_LEFT_THUMB,
    );
    let prev = pressed(now, before, XINPUT_GAMEPAD_LEFT_SHOULDER);
    let next = pressed(now, before, XINPUT_GAMEPAD_RIGHT_SHOULDER);
    let a = when(attach, GamepadAction::Attach);
    assert(a =~= Seq::<GamepadAction>::empty() + a);
    let b = a + when(limiter, GamepadAction::ToggleLimiter);
    let c = b + when(auto_attach, GamepadAction::ToggleAutoAttach);
    let d = c + when(big, GamepadAction::ToggleBigPicture);
    let e = d + when(prev, GamepadAction::PrevPreset);
    lemma_members(a, b, c, d, e, attach, limiter, auto_attach, big, prev, next, y);
    lemma_members(
        a,
        b,
        c,
        d,
        e,
        attach,
        limiter,
        auto_attach,
        big,
        prev,
        next,
        GamepadAction::ToggleLimiter,
    );
    lemma_members(
        a,
        b,
        c,
        d,
        e,
        attach,
        limiter,
        auto_attach,
        big,
        prev,
        next,
        GamepadAction::ToggleAutoAttach,
    );
    lemma_members(
        a,
        b,
        c,
        d,
        e,
        attach,
        limiter,
        auto_attach,
        big,
        prev,
        next,
        GamepadAction::ToggleBigPicture,
    );
    lemma_members(
        a,
        b,
        c,
        d,
        e,
        attach,
        limiter,
        auto_attach,
        big,
        prev,
        next,
        GamepadAction::PrevPreset,
    );
    lemma_members(
        a,
        b,
        c,
        d,
        e,
        attach,
        limiter,
        auto_attach,
        big,
        prev,
        next,
        GamepadAction::NextPreset,
    );
}

proof fn lemma_members(
    a: Seq<GamepadAction>,
    b: Seq<GamepadAction>,
    c: Seq<GamepadAction>,
    d: Seq<GamepadAction>,
    e: Seq<GamepadAction>,
    attach: bool,
    limiter: bool,
    auto_attach: bool,
    big: bool,
    prev: bool,
    next: bool,
    y: GamepadAction,
)
    requires
        a == Seq::<GamepadAction>::empty() + when(attach, GamepadAction::Attach),
        b == a + when(limiter, GamepadAction::ToggleLimiter),
        c == b + when(auto_attach, GamepadAction::ToggleAutoAttach),
        d == c + when(big, GamepadAction::ToggleBigPicture),
        e == d + when(prev, GamepadAction::PrevPreset),
    ensures
        a.contains(y) <==> attach && y == GamepadAction::Attach,
        b.contains(y) <==> a.contains(y) || (limiter && y == GamepadAction::ToggleLimiter),
        c.contains(y) <==> b.contains(y) || (auto_attach && y == GamepadAction::ToggleAutoAttach),
        d.contains(y) <==> c.contains(y) || (big && y == GamepadAction::ToggleBigPicture),
        e.contains(y) <==> d.contains(y) || (prev && y == GamepadAction::PrevPreset),
        (e + when(next, GamepadAction::NextPreset)).contains(y) <==> e.contains(y) || (next && y
            == GamepadAction::NextPreset),
        a.no_duplicates(),
        a.no_duplicates() && !a.contains(GamepadAction::ToggleLimiter) ==> b.no_duplicates(),
        b.no_duplicates() && !b.contains(GamepadAction::ToggleAutoAttach) ==> c.no_duplicates(),
        c.no_duplicates() && !c.contains(GamepadAction::ToggleBigPicture) ==> d.no_duplicates(),
        d.no_duplicates() && !d.contains(GamepadAction::PrevPreset) ==> e.no_duplicates(),
        e.no_duplicates() && !e.contains(GamepadAction::NextPreset) ==> (e + when(
            next,
            GamepadAction::NextPreset,
        )).no_duplicates(),
{
    lemma_when(Seq::empty(), attach, GamepadAction::Attach, y);
    lemma_when(a, limiter, GamepadAction::ToggleLimiter, y);
    lemma_when(b, auto_attach, GamepadAction::ToggleAutoAttach, y);
    lemma_when(c, big, GamepadAction::ToggleBigPicture, y);
    lemma_when(d, prev, GamepadAction::PrevPreset, y);
    lemma_when(e, next, GamepadAction::NextPreset, y);
}

/// Left steps down and right steps up, by the pad or by the stick beyond 7849; the stick
/// beyond 22000 in that direction steps by five, anything else by one. Left wins.
pub proof fn law_sideways_steps_the_rate(tracker: GamepadTracker, pad: XInputGamepad, now: u64)
    requires
        tracker.held_dir == Direction::Neutral,
    ensures
        ({
            let left = pad.w_buttons & 0x4 != 0 || pad.s_thumb_lx < -7849;
            let right = pad.w_buttons & 0x8 != 0 || pad.s_thumb_lx > 7849;
            let steps = tracker.step_actions(pad, now);
            &&& left && pad.s_thumb_lx < -22000 ==> steps == seq![GamepadAction::FpsDown(5)]
            &&& left && pad.s_thumb_lx >= -22000 ==> steps == seq![GamepadAction::FpsDown(1)]
            &&& !left && right && pad.s_thumb_lx > 22000 ==> steps == seq![GamepadAction::FpsUp(5)]
            &&& !left && right && pad.s_thumb_lx <= 22000 ==> steps == seq![GamepadAction::FpsUp(1)]
            &&& !left && !right ==> steps.len() == 0
        }),
{
}

/// A direction that stays held steps again 300 ms after it was first held, then every
/// 60 ms; after it was let go it steps at once. Controllers are looked for every two
/// seconds.
pub proof fn law_held_direction_repeats(
    tracker: GamepadTracker,
    pad: XInputGamepad,
    start: u64,
    now: u64,
)
    requires
        pad.direction() != Direction::Neutral,
        tracker.hold_start == Some(start),
        start <= tracker.last_repeat <= now,
    ensures
        tracker.held_dir == pad.direction() ==> (tracker.step_actions(pad, now).len() == 1 <==> now
            - start >= 300_000_000 && now - tracker.last_repeat >= 60_000_000),
        tracker.held_dir != pad.direction() ==> tracker.step_actions(pad, now).len() == 1,
        tracker.last_disconnect_scan is Some && tracker.last_disconnect_scan->0 <= now ==> (
        tracker.rests(now) <==> now - tracker.last_disconnect_scan->0 < 2_000_000_000),
{
}

/// What is remembered of a reading: its buttons, its packet and the direction that is held,
/// since when and when it last stepped.
pub proof fn law_reading_is_remembered(tracker: GamepadTracker, state: XInputState, now: u64)
    ensures
        ({
            let t = tracker.after_reading(state, now);
            let steps = tracker.step_actions(state.gamepad, now).len();
            &&& t.connected
            &&& t.last_buttons == state.gamepad.w_buttons
            &&& t.last_packet == state.dw_packet_number
            &&& t.held_dir == state.gamepad.direction()
            &&& t.held_dir == Direction::Neutral ==> t.hold_start is None
            &&& t.held_dir != Direction::Neutral && t.held_dir != tracker.held_dir ==> t.hold_start
                == Some(now)
            &&& t.held_dir != Direction::Neutral && t.held_dir == tracker.held_dir ==> t.hold_start
                == tracker.hold_start
            &&& steps == 0 ==> t.last_repeat == tracker.last_repeat
            &&& steps > 0 ==> t.last_repeat == now
            &&& t.active_controller == tracker.active_controller
            &&& t.available == tracker.available
            &&& t.last_disconnect_scan == tracker.last_disconnect_scan
            &&& tracker.lost().last_buttons == 0
            &&& tracker.lost().held_dir == Direction::Neutral
            &&& tracker.lost().hold_start is None
            &&& tracker.lost().available == tracker.available
        }),
{
}

} // verus!
