//! The part of the screen that is captured.

use vstd::prelude::*;

verus! {

/// What the display answers when no new frame came in time.
pub const ERROR_WAIT_TIMEOUT: u32 = 0x887A_0027;

/// What it answers when its mode changed under the capture.
pub const ERROR_ACCESS_LOST: u32 = 0x887A_0026;

/// A rectangle in pixels; `right` and `bottom` are outside of it.
#[derive(Debug, Clone, Copy, PartialEq, Eq, Structural)]
pub struct CropBox {
    pub left: u32,
    pub top: u32,
    pub right: u32,
    pub bottom: u32,
}

/// A stretch of the window along one axis.
#[derive(Debug, Clone, Copy, PartialEq, Eq, Structural)]
pub struct Span {
    /// Where it starts on the desktop.
    pub at: i32,
    /// Its ends relative to the window.
    pub from: i32,
    pub to: i32,
}

/// Where a stretch starts on a screen that starts at `offset`.
pub open spec fn first_pixel(s: Span, offset: int) -> int {
    if s.at - offset > 0 {
        s.at - offset
    } else {
        0
    }
}

/// Where it ends on a screen of `room` pixels.
pub open spec fn last_pixel(s: Span, offset: int, room: int) -> int {
    let w = if s.to - s.from > 1 {
        s.to - s.from
    } else {
        1
    };
    if first_pixel(s, offset) + w < room {
        first_pixel(s, offset) + w
    } else {
        room
    }
}

/// The pixels of a stretch on a screen, from the first to behind the last.
fn pixels(s: Span, offset: i32, room: u32) -> (p: (u32, u32))
    requires
        i32::MIN <= s.at - offset <= i32::MAX,
        i32::MIN <= s.to - s.from <= i32::MAX,
    ensures
        p.0 == first_pixel(s, offset as int),
        p.1 == last_pixel(s, offset as int, room as int),
{
    let at: i32 = s.at - offset;
    let first: u32 = if at > 0 {
        at as u32
    } else {
        0
    };
    let length: i32 = s.to - s.from;
    let w: u32 = if length > 1 {
        length as u32
    } else {
        1
    };
    let end: u32 = first + w;
    (
        first,
        if end < room {
            end
        } else {
            room
        },
    )
}

/// The part of a screen that a window covers; none where nothing of it is on the screen.
/// The differences of its coordinates are those of 32-bit numbers.
pub fn crop(
    x: Span,
    y: Span,
    offset_x: i32,
    offset_y: i32,
    screen_width: u32,
    screen_height: u32,
) -> (c: Option<CropBox>)
    requires
        i32::MIN <= x.at - offset_x <= i32::MAX,
        i32::MIN <= x.to - x.from <= i32::MAX,
        i32::MIN <= y.at - offset_y <= i32::MAX,
        i32::MIN <= y.to - y.from <= i32::MAX,
    ensures
        c is Some <==> first_pixel(x, offset_x as int) < last_pixel(
            x,
            offset_x as int,
            screen_width as int,
        ) && first_pixel(y, offset_y as int) < last_pixel(
            y,
            offset_y as int,
            screen_height as int,
        ),
        c is Some ==> c->0 == (CropBox {
            left: first_pixel(x, offset_x as int) as u32,
            top: first_pixel(y, offset_y as int) as u32,
            right: last_pixel(x, offset_x as int, screen_width as int) as u32,
            bottom: last_pixel(y, offset_y as int, screen_height as int) as u32,
        }),
{
    let (left, right) = pixels(x, offset_x, screen_width);
    let (top, bottom) = pixels(y, offset_y, screen_height);
    if right <= left || bottom <= top {
        return None;
    }
    Some(CropBox { left, top, right, bottom })
}

/// The first output of a monitor.
pub open spec fn first_output(outputs: Seq<Option<i64>>, monitor: i64) -> Option<int>
    decreases outputs.len(),
{
    if outputs.len() == 0 {
        None
    } else if outputs[0] == Some(monitor) {
        Some(0)
    } else {
        match first_output(outputs.drop_first(), monitor) {
            Some(i) => Some(i + 1),
            None => None,
        }
    }
}

proof fn lemma_first_output(outputs: Seq<Option<i64>>, monitor: i64, i: int)
    requires
        0 <= i <= outputs.len(),
        forall|j: int| 0 <= j < i ==> #[trigger] outputs[j] != Some(monitor),
        i < outputs.len() ==> outputs[i] == Some(monitor),
    ensures
        first_output(outputs, monitor) == if i < outputs.len() {
            Some(i)
        } else {
            None::<int>
        },
    decreases outputs.len(),
{
    if i > 0 {
        let rest = outputs.drop_first();
        assert(outputs[0] != Some(monitor));
        assert forall|j: int| 0 <= j < i - 1 implies #[trigger] rest[j] != Some(monitor) by {
            assert(outputs[j + 1] != Some(monitor));
        }
        lemma_first_output(rest, monitor, i - 1);
    }
}

/// The output to capture: the first one of the monitor, or else the first of all.
/// `outputs` holds the monitor of each, where it could be asked for.
pub fn choose_output(outputs: &Vec<Option<i64>>, monitor: Option<i64>) -> (i: usize)
    ensures
        i == match monitor {
            Some(m) => match first_output(outputs@, m) {
                Some(k) => k,
                None => 0,
            },
            None => 0,
        },
{
    match monitor {
        None => 0,
        Some(m) => {
            let mut i: usize = 0;
            while i < outputs.len()
                invariant
                    i <= outputs@.len(),
                    monitor == Some(m),
                    forall|j: int| 0 <= j < i ==> #[trigger] outputs@[j] != Some(m),
                decreases outputs@.len() - i,
            {
                if let Some(o) = outputs[i] {
                    if o == m {
                        proof {
                            lemma_first_output(outputs@, m, i as int);
                        }
                        return i;
                    }
                }
                i = i + 1;
            }
            proof {
                lemma_first_output(outputs@, m, i as int);
            }
            0
        },
    }
}

/// Does the capture have to start anew: the window moved to another monitor, or there is
/// no capture?
pub fn must_restart(monitor: Option<i64>, current: Option<i64>, running: bool) -> (restart: bool)
    ensures
        restart == ((monitor is Some && monitor != current) || !running),
{
    let moved = match monitor {
        Some(m) => match current {
            Some(c) => m != c,
            None => true,
        },
        None => false,
    };
    moved || !running
}

/// What a failed capture means.
#[derive(Debug, Clone, Copy, PartialEq, Eq, Structural)]
pub enum Miss {
    /// No new frame.
    NoFrame,
    /// Start the capture anew; no new frame.
    Restart,
    /// The capture failed.
    Failed,
}

/// What the display's answer means.
pub fn missed(code: u32) -> (m: Miss)
    ensures
        m == if code == ERROR_WAIT_TIMEOUT {
            Miss::NoFrame
        } else if code == ERROR_ACCESS_LOST {
            Miss::Restart
        } else {
            Miss::Failed
        },
{
    if code == ERROR_WAIT_TIMEOUT {
        Miss::NoFrame
    } else if code == ERROR_ACCESS_LOST {
        Miss::Restart
    } else {
        Miss::Failed
    }
}

/// What is captured lies on the screen and is not empty.
pub proof fn law_crop_lies_on_the_screen(s: Span, offset: int, room: int)
    requires
        room >= 0,
        first_pixel(s, offset) < last_pixel(s, offset, room),
    ensures
        0 <= first_pixel(s, offset),
        last_pixel(s, offset, room) <= room,
{
}

/// A window that lies on the screen is captured whole.
pub proof fn law_visible_window_is_captured_whole(s: Span, offset: int, room: int)
    requires
        s.at >= offset,
        s.to > s.from,
        s.at - offset + (s.to - s.from) <= room,
    ensures
        first_pixel(s, offset) == s.at - offset,
        last_pixel(s, offset, room) - first_pixel(s, offset) == s.to - s.from,
{
}

/// What is captured of a window starts where the window starts on the screen, or at its
/// edge, and is as long as the window, or ends at the other edge; it is never nothing where
/// there is room.
pub proof fn law_capture_follows_the_window(s: Span, offset: int, room: int)
    ensures
        ({
            let (first, last) = (first_pixel(s, offset), last_pixel(s, offset, room));
            let long: int = if s.to - s.from >= 1 {
                s.to - s.from
            } else {
                1
            };
            &&& s.at >= offset ==> first == s.at - offset
            &&& s.at < offset ==> first == 0
            &&& first + long <= room ==> last - first == long
            &&& first + long > room ==> last == room
            &&& first < room ==> first < last
        }),
{
}

/// The output of a monitor is the first that shows it.
pub proof fn law_first_output_shows_the_monitor(outputs: Seq<Option<i64>>, monitor: i64)
    ensures
        first_output(outputs, monitor) is None <==> (forall|i: int|
            0 <= i < outputs.len() ==> #[trigger] outputs[i] != Some(monitor)),
        first_output(outputs, monitor) matches Some(i) ==> {
            &&& 0 <= i < outputs.len()
            &&& outputs[i] == Some(monitor)
            &&& forall|j: int| 0 <= j < i ==> #[trigger] outputs[j] != Some(monitor)
        },
    decreases outputs.len(),
{
    if outputs.len() > 0 && outputs[0] != Some(monitor) {
        let rest = outputs.drop_first();
        law_first_output_shows_the_monitor(rest, monitor);
        match first_output(outputs, monitor) {
            None => {
                assert forall|i: int| 0 <= i < outputs.len() implies #[trigger] outputs[i] != Some(
                    monitor,
                ) by {
                    if i > 0 {
                        assert(outputs[i] == rest[i - 1]);
                    }
                }
            },
            Some(i) => {
                assert(outputs[i] == rest[i - 1]);
                assert forall|j: int| 0 <= j < i implies #[trigger] outputs[j] != Some(monitor) by {
                    if j > 0 {
                        assert(outputs[j] == rest[j - 1]);
                    }
                }
            },
        }
    }
}

} // verus!
