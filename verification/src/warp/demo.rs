//! The camera of the demonstration scene, and its frame lock.

use vstd::prelude::*;

use crate::fixed;
use crate::fixed::{clamp_i64, round_div};
use crate::warp::math;
use crate::warp::math::ratio;

verus! {

/// Length of a frame of the demonstration (33 ms).
pub const FRAME_NS: u64 = 33_000_000;

/// Angle per pixel, fixed-point radians.
pub const ANGLE_PER_PIXEL: i64 = 5_000;

/// The steepest pitch, fixed-point radians.
pub const STEEPEST_PITCH: i64 = 1_400_000;

/// The key that ends the demonstration.
pub const ESCAPE_KEY: u64 = 0x1B;

/// The pause after a frame that took `elapsed_ns`.
pub fn frame_pause(elapsed_ns: u64) -> (ns: u64)
    ensures
        ns == if elapsed_ns < FRAME_NS {
            FRAME_NS - elapsed_ns
        } else {
            0
        },
{
    if elapsed_ns < FRAME_NS {
        FRAME_NS - elapsed_ns
    } else {
        0
    }
}

/// A 16-bit word as a signed number.
pub open spec fn signed_word(w: int) -> int {
    if w >= 0x8000 {
        w - 0x1_0000
    } else {
        w
    }
}

fn signed(w: u32) -> (n: i32)
    requires
        w < 0x1_0000,
    ensures
        n == signed_word(w as int),
{
    if w >= 0x8000 {
        w as i32 - 0x1_0000
    } else {
        w as i32
    }
}

/// The position of the mouse in a message: the low word and the high word of its
/// parameter.
pub fn mouse_position(param: u32) -> (p: (i32, i32))
    ensures
        p.0 == signed_word(param as int % 0x1_0000),
        p.1 == signed_word(param as int / 0x1_0000),
{
    (signed(param % 0x1_0000), signed(param / 0x1_0000))
}

/// The camera.
#[derive(Debug, Clone, Copy, PartialEq, Eq, Structural)]
pub struct Camera {
    pub button_down: bool,
    pub last_x: i32,
    pub last_y: i32,
    /// Fixed-point radians.
    pub yaw: i64,
    pub pitch: i64,
}

impl Camera {
    pub fn new() -> (c: Camera)
        ensures
            c == (Camera { button_down: false, last_x: 0, last_y: 0, yaw: 0, pitch: 0 }),
    {
        Camera { button_down: false, last_x: 0, last_y: 0, yaw: 0, pitch: 0 }
    }

    /// The button goes down.
    pub fn press(&mut self, x: i32, y: i32)
        ensures
            *final(self) == (Camera { button_down: true, last_x: x, last_y: y, ..*old(self) }),
    {
        self.button_down = true;
        self.last_x = x;
        self.last_y = y;
    }

    /// The button comes up.
    pub fn release(&mut self)
        ensures
            *final(self) == (Camera { button_down: false, ..*old(self) }),
    {
        self.button_down = false;
    }

    /// The state after a drag.
    pub open spec fn dragged(self, x: i32, y: i32) -> Camera {
        if self.button_down {
            Camera {
                last_x: x,
                last_y: y,
                yaw: fixed::sat64(self.yaw + (x - self.last_x) * ANGLE_PER_PIXEL) as i64,
                pitch: fixed::within(
                    self.pitch + (y - self.last_y) * ANGLE_PER_PIXEL,
                    -STEEPEST_PITCH,
                    STEEPEST_PITCH as int,
                ) as i64,
                ..self
            }
        } else {
            self
        }
    }

    /// The mouse moves; with the button down it turns the camera.
    pub fn drag(&mut self, x: i32, y: i32)
        ensures
            *final(self) == old(self).dragged(x, y),
    {
        if self.button_down {
            let dx: i128 = x as i128 - self.last_x as i128;
            let dy: i128 = y as i128 - self.last_y as i128;
            self.last_x = x;
            self.last_y = y;
            self.yaw = clamp_i64(self.yaw as i128 + dx * 5_000);
            let pitch: i64 = clamp_i64(self.pitch as i128 + dy * 5_000);
            self.pitch = if pitch < -STEEPEST_PITCH {
                -STEEPEST_PITCH
            } else if pitch > STEEPEST_PITCH {
                STEEPEST_PITCH
            } else {
                pitch
            };
        }
    }
}

/// A drag never tips the camera over.
pub proof fn law_pitch_is_bounded(c: Camera, x: i32, y: i32)
    requires
        -STEEPEST_PITCH <= c.pitch <= STEEPEST_PITCH,
    ensures
        -STEEPEST_PITCH <= c.dragged(x, y).pitch <= STEEPEST_PITCH,
{
}

/// A row of the matrix that puts the scene on the screen.
#[derive(Debug, Clone, Copy, PartialEq, Eq, Structural)]
pub struct Row {
    pub x: i64,
    pub y: i64,
    pub z: i64,
    pub w: i64,
}

/// The matrix that puts the scene on the screen.
#[derive(Debug, Clone, Copy, PartialEq, Eq, Structural)]
pub struct Mvp {
    pub r0: Row,
    pub r1: Row,
    pub r2: Row,
    pub r3: Row,
}

/// A number times the far plane (100) over the room between the planes (99.9).
pub open spec fn deepened(v: int) -> int {
    fixed::sat64(fixed::round_quot(v * 1_000, 999))
}

/// The matrix for a cube that is turned about the vertical axis and looked at from three
/// away, with a field of view of a right angle between planes at 0.1 and 100.
pub open spec fn mvp_of(sin: i64, cos: i64, sin_pitch: i64, aspect: i64) -> Mvp {
    Mvp {
        r0: Row {
            x: math::over(cos as int, aspect as int) as i64,
            y: 0,
            z: deepened(sin as int) as i64,
            w: sin,
        },
        r1: Row { x: 0, y: 1_000_000, z: fixed::round_quot(sin_pitch as int, 2) as i64, w: 0 },
        r2: Row {
            x: math::over(-sin, aspect as int) as i64,
            y: 0,
            z: deepened(cos as int) as i64,
            w: cos,
        },
        r3: Row { x: 0, y: 0, z: 2_899_900, w: 3_000_000 },
    }
}

fn deepen(v: i64) -> (d: i64)
    ensures
        d == deepened(v as int),
{
    clamp_i64(round_div(v as i128 * 1_000, 999))
}

/// The matrix for the sine and cosine of the turn, the sine of the pitch and the aspect
/// ratio (see [`mvp_of`]).
pub fn compute_mvp(sin: i64, cos: i64, sin_pitch: i64, aspect: i64) -> (m: Mvp)
    ensures
        m == mvp_of(sin, cos, sin_pitch, aspect),
{
    proof {
        fixed::lemma_nearest(sin_pitch as int, 2);
    }
    Mvp {
        r0: Row { x: ratio(cos as i128, aspect as i128), y: 0, z: deepen(sin), w: sin },
        r1: Row { x: 0, y: 1_000_000, z: round_div(sin_pitch as i128, 2) as i64, w: 0 },
        r2: Row { x: ratio(-(sin as i128), aspect as i128), y: 0, z: deepen(cos), w: cos },
        r3: Row { x: 0, y: 0, z: 2_899_900, w: 3_000_000 },
    }
}

} // verus!
