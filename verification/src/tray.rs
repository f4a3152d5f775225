//! The icon in the system tray and the hotkey that goes with it.

use vstd::prelude::*;

verus! {

/// Width and height of the icon.
pub const ICON_SIZE: u32 = 32;

pub open spec fn distance(a: int, b: int) -> int {
    if a >= b {
        a - b
    } else {
        b - a
    }
}

/// Is a pixel part of the frame or of the line that rises through it?
pub open spec fn is_drawn(x: int, y: int) -> bool {
    ||| x < 3
    ||| y < 3
    ||| x >= 29
    ||| y >= 29
    ||| distance(x, (31 - y) * 2) < 5
}

/// The colour of a pixel, as red, green, blue and opacity.
pub open spec fn pixel(x: int, y: int) -> Seq<u8> {
    if is_drawn(x, y) {
        seq![0x30u8, 0xE0u8, 0x6Au8, 0xFFu8]
    } else {
        seq![0x10u8, 0x14u8, 0x18u8, 0xFFu8]
    }
}

/// The icon: a dark plate, a green frame and a green line. Rows from top to bottom,
/// pixels from left to right, four bytes each.
pub fn icon_rgba() -> (rgba: Vec<u8>)
    ensures
        rgba@.len() == 32 * 32 * 4,
        forall|i: int|
            0 <= i < rgba@.len() ==> #[trigger] rgba@[i] == pixel((i / 4) % 32, i / 128)[i % 4],
{
    let mut rgba: Vec<u8> = Vec::new();
    let mut y: u32 = 0;
    while y < ICON_SIZE
        invariant
            y <= 32,
            rgba@.len() == y * 128,
            forall|i: int|
                0 <= i < rgba@.len() ==> #[trigger] rgba@[i] == pixel((i / 4) % 32, i / 128)[i % 4],
        decreases 32 - y,
    {
        let mut x: u32 = 0;
        while x < ICON_SIZE
            invariant
                y < 32,
                x <= 32,
                rgba@.len() == y * 128 + x * 4,
                forall|i: int|
                    0 <= i < rgba@.len() ==> #[trigger] rgba@[i] == pixel(
                        (i / 4) % 32,
                        i / 128,
                    )[i % 4],
            decreases 32 - x,
        {
            let rise: i32 = x as i32 - (31 - y as i32) * 2;
            let drawn = x < 3 || y < 3 || x >= 29 || y >= 29 || (rise < 5 && rise > -5);
            assert(drawn == is_drawn(x as int, y as int));
            let ghost at = rgba@.len() as int;
            let ghost before = rgba@;
            if drawn {
                rgba.push(0x30);
                rgba.push(0xE0);
                rgba.push(0x6A);
                rgba.push(0xFF);
            } else {
                rgba.push(0x10);
                rgba.push(0x14);
                rgba.push(0x18);
                rgba.push(0xFF);
            }
            proof {
                assert forall|i: int| 0 <= i < rgba@.len() implies #[trigger] rgba@[i] == pixel(
                    (i / 4) % 32,
                    i / 128,
                )[i % 4] by {
                    if i < at {
                        assert(rgba@[i] == before[i]);
                    } else {
                        assert(i / 4 == 32 * y + x);
                        assert((i / 4) % 32 == x);
                        assert(i / 128 == y);
                        assert(rgba@[i] == pixel(x as int, y as int)[i - at]);
                    }
                }
            }
            x = x + 1;
        }
        y = y + 1;
    }
    rgba
}

/// A hotkey event.
#[derive(Debug, Clone, Copy, PartialEq, Eq, Structural)]
pub struct HotKeyEvent {
    pub id: u32,
    /// Pressed, not released.
    pub pressed: bool,
}

/// The hotkeys that were pressed, in order.
pub open spec fn pressed_of(events: Seq<HotKeyEvent>) -> Seq<u32>
    decreases events.len(),
{
    if events.len() == 0 {
        seq![]
    } else if events.last().pressed {
        pressed_of(events.drop_last()).push(events.last().id)
    } else {
        pressed_of(events.drop_last())
    }
}

/// The hotkeys that were pressed, in order.
pub fn pressed(events: &Vec<HotKeyEvent>) -> (ids: Vec<u32>)
    ensures
        ids@ == pressed_of(events@),
{
    let mut ids: Vec<u32> = Vec::new();
    let mut i: usize = 0;
    while i < events.len()
        invariant
            i <= events@.len(),
            ids@ == pressed_of(events@.take(i as int)),
        decreases events@.len() - i,
    {
        assert(events@.take(i + 1).drop_last() =~= events@.take(i as int));
        if events[i].pressed {
            ids.push(events[i].id);
        }
        i = i + 1;
    }
    assert(events@.take(i as int) =~= events@);
    ids
}

/// The entries of the tray's menu.
#[derive(Debug, Clone, Copy, PartialEq, Eq, Structural)]
pub enum MenuEntry {
    Show,
    Limiter,
    Quit,
}

/// What the tray and the hotkey ask for.
#[derive(Debug, Clone, Copy, PartialEq, Eq, Structural)]
pub enum TrayAction {
    /// Show the window and bring it to the front.
    Show,
    Hide,
    ToggleLimiter,
    Quit,
}

/// The panel's window.
#[derive(Debug, Clone, Copy, PartialEq, Eq, Structural)]
pub struct WindowState {
    pub visible: bool,
    pub always_on_top: bool,
    /// What was last asked of the window system.
    pub applied_on_top: bool,
    pub tray_tried: bool,
}

impl WindowState {
    pub fn new() -> (w: WindowState)
        ensures
            w == (WindowState {
                visible: true,
                always_on_top: true,
                applied_on_top: false,
                tray_tried: false,
            }),
    {
        WindowState { visible: true, always_on_top: true, applied_on_top: false, tray_tried: false }
    }

    /// What an entry of the menu asks for; the first one shows and hides in turn.
    pub fn menu(&mut self, entry: MenuEntry) -> (a: TrayAction)
        ensures
            a == match entry {
                MenuEntry::Show => if old(self).visible {
                    TrayAction::Hide
                } else {
                    TrayAction::Show
                },
                MenuEntry::Limiter => TrayAction::ToggleLimiter,
                MenuEntry::Quit => TrayAction::Quit,
            },
            *final(self) == (WindowState {
                visible: if entry is Show {
                    !old(self).visible
                } else {
                    old(self).visible
                },
                ..*old(self)
            }),
    {
        match entry {
            MenuEntry::Show => {
                self.visible = !self.visible;
                if self.visible {
                    TrayAction::Show
                } else {
                    TrayAction::Hide
                }
            },
            MenuEntry::Limiter => TrayAction::ToggleLimiter,
            MenuEntry::Quit => TrayAction::Quit,
        }
    }

    /// The level to ask of the window system, where it changed.
    pub fn level_change(&mut self) -> (on_top: Option<bool>)
        ensures
            on_top == if old(self).applied_on_top == old(self).always_on_top {
                None
            } else {
                Some(old(self).always_on_top)
            },
            *final(self) == (WindowState {
                applied_on_top: old(self).always_on_top,
                ..*old(self)
            }),
    {
        let known = self.applied_on_top == self.always_on_top;
        self.applied_on_top = self.always_on_top;
        if known {
            None
        } else {
            Some(self.always_on_top)
        }
    }

    /// Is the tray to be made? Once, when the window is drawn for the first time.
    pub fn first_draw(&mut self) -> (make: bool)
        ensures
            make == !old(self).tray_tried,
            *final(self) == (WindowState { tray_tried: true, ..*old(self) }),
    {
        let make = !self.tray_tried;
        self.tray_tried = true;
        make
    }
}

/// How often the limiter's hotkey was pressed.
pub open spec fn presses_of(ids: Seq<u32>, id: u32) -> nat
    decreases ids.len(),
{
    if ids.len() == 0 {
        0
    } else {
        presses_of(ids.drop_last(), id) + if ids.last() == id {
            1nat
        } else {
            0nat
        }
    }
}

/// How often a hotkey was pressed.
pub fn presses(ids: &Vec<u32>, id: u32) -> (n: usize)
    ensures
        n == presses_of(ids@, id),
{
    let mut n: usize = 0;
    let mut i: usize = 0;
    while i < ids.len()
        invariant
            i <= ids@.len(),
            n <= i,
            n == presses_of(ids@.take(i as int), id),
        decreases ids@.len() - i,
    {
        assert(ids@.take(i + 1).drop_last() =~= ids@.take(i as int));
        if ids[i] == id {
            n = n + 1;
        }
        i = i + 1;
    }
    assert(ids@.take(i as int) =~= ids@);
    n
}

/// Every press counts and nothing else does: what was pressed is the pressed events, in
/// their order, and a hotkey was pressed as often as it is among them.
pub proof fn law_every_press_counts(events: Seq<HotKeyEvent>, ids: Seq<u32>, id: u32)
    ensures
        pressed_of(events) == events.filter(|e: HotKeyEvent| e.pressed).map_values(
            |e: HotKeyEvent| e.id,
        ),
        presses_of(ids, id) == ids.filter(|x: u32| x == id).len(),
{
    lemma_pressed(events);
    lemma_presses(ids, id);
}

proof fn lemma_pressed(events: Seq<HotKeyEvent>)
    ensures
        pressed_of(events) == events.filter(|e: HotKeyEvent| e.pressed).map_values(
            |e: HotKeyEvent| e.id,
        ),
    decreases events.len(),
{
    reveal(Seq::filter);
    if events.len() > 0 {
        lemma_pressed(events.drop_last());
    }
    assert(pressed_of(events) =~= events.filter(|e: HotKeyEvent| e.pressed).map_values(
        |e: HotKeyEvent| e.id,
    ));
}

proof fn lemma_presses(ids: Seq<u32>, id: u32)
    ensures
        presses_of(ids, id) == ids.filter(|x: u32| x == id).len(),
    decreases ids.len(),
{
    reveal(Seq::filter);
    if ids.len() > 0 {
        lemma_presses(ids.drop_last(), id);
    }
}

/// The icon has a frame of three pixels on every side and is opaque throughout.
pub proof fn law_icon_has_a_frame(x: int, y: int)
    requires
        0 <= x < 32,
        0 <= y < 32,
    ensures
        pixel(x, y).len() == 4,
        pixel(x, y)[3] == 0xFF,
        x < 3 || x > 28 || y < 3 || y > 28 ==> pixel(x, y)[1] == 0xE0,
        pixel(x, y)[1] == 0xE0 && 3 <= x <= 28 && 3 <= y <= 28 ==> -5 < x + 2 * y - 62 < 5,
        -5 < x + 2 * y - 62 < 5 ==> pixel(x, y)[1] == 0xE0,
{
}

} // verus!
