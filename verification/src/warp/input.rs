//! Mouse motion between two frames.

use vstd::prelude::*;

use crate::fixed;
use crate::fixed::clamp_i64;

verus! {

/// Raw input of a mouse.
pub const RAW_MOUSE: u32 = 0;

/// `a + b` as a 32-bit counter keeps it.
pub open spec fn wrapped(a: int, b: int) -> int {
    let s = a + b;
    if s > i32::MAX {
        s - 0x1_0000_0000
    } else if s < i32::MIN {
        s + 0x1_0000_0000
    } else {
        s
    }
}

fn wrapping_sum(a: i32, b: i32) -> (s: i32)
    ensures
        s == wrapped(a as int, b as int),
{
    a.wrapping_add(b)
}

/// Mouse motion that no frame has used yet.
#[derive(Debug, Clone, Copy, PartialEq, Eq, Structural)]
pub struct InputAccumulator {
    pub acc_dx: i32,
    pub acc_dy: i32,
    /// When the mouse moved last, in counter ticks.
    pub last_event_qpc: i64,
}

impl Default for InputAccumulator {
    fn default() -> (acc: InputAccumulator)
        ensures
            acc == (InputAccumulator { acc_dx: 0, acc_dy: 0, last_event_qpc: 0 }),
    {
        InputAccumulator::new()
    }
}

impl InputAccumulator {
    pub fn new() -> (acc: InputAccumulator)
        ensures
            acc == (InputAccumulator { acc_dx: 0, acc_dy: 0, last_event_qpc: 0 }),
    {
        InputAccumulator { acc_dx: 0, acc_dy: 0, last_event_qpc: 0 }
    }

    /// The state after a motion.
    pub open spec fn moved(self, dx: i32, dy: i32, now: i64) -> InputAccumulator {
        InputAccumulator {
            acc_dx: wrapped(self.acc_dx as int, dx as int) as i32,
            acc_dy: wrapped(self.acc_dy as int, dy as int) as i32,
            last_event_qpc: now,
        }
    }

    /// The state after a sample was taken.
    pub open spec fn emptied(self) -> InputAccumulator {
        InputAccumulator { acc_dx: 0, acc_dy: 0, ..self }
    }

    /// Adds a motion of the mouse.
    pub fn push_delta(&mut self, dx: i32, dy: i32, now_qpc: i64)
        ensures
            *final(self) == old(self).moved(dx, dy, now_qpc),
    {
        self.acc_dx = wrapping_sum(self.acc_dx, dx);
        self.acc_dy = wrapping_sum(self.acc_dy, dy);
        self.last_event_qpc = now_qpc;
    }

    /// Takes the motion since the last sample, with the time of its last event.
    pub fn sample_and_reset(&mut self) -> (r: (i32, i32, i64))
        ensures
            r == (old(self).acc_dx, old(self).acc_dy, old(self).last_event_qpc),
            *final(self) == old(self).emptied(),
    {
        let r = (self.acc_dx, self.acc_dy, self.last_event_qpc);
        self.acc_dx = 0;
        self.acc_dy = 0;
        r
    }

    /// The motion since the last sample.
    pub fn peek(&self) -> (r: (i32, i32))
        ensures
            r == (self.acc_dx, self.acc_dy),
    {
        (self.acc_dx, self.acc_dy)
    }
}

/// The listener for mouse input.
#[derive(Debug, Clone, Copy, PartialEq, Eq, Structural)]
pub struct RawInputListener {
    pub running: bool,
    pub input: InputAccumulator,
}

impl RawInputListener {
    pub fn new() -> (l: RawInputListener)
        ensures
            l == (RawInputListener {
                running: false,
                input: InputAccumulator { acc_dx: 0, acc_dy: 0, last_event_qpc: 0 },
            }),
    {
        RawInputListener { running: false, input: InputAccumulator::new() }
    }

    /// Starts the listener. When the result is true the caller opens its window; a second
    /// start changes nothing.
    pub fn start(&mut self) -> (open: bool)
        ensures
            open == !old(self).running,
            *final(self) == (RawInputListener { running: true, ..*old(self) }),
    {
        let open = !self.running;
        self.running = true;
        open
    }

    /// Takes an input event; only those of a mouse that moved count.
    pub fn on_raw_input(&mut self, device: u32, dx: i32, dy: i32, now_qpc: i64)
        ensures
            final(self).running == old(self).running,
            final(self).input == if device == RAW_MOUSE && (dx != 0 || dy != 0) {
                old(self).input.moved(dx, dy, now_qpc)
            } else {
                old(self).input
            },
    {
        if device == RAW_MOUSE && (dx != 0 || dy != 0) {
            self.input.push_delta(dx, dy, now_qpc);
        }
    }

    /// The motion that all frames share.
    pub fn global_input(&self) -> (input: &InputAccumulator)
        ensures
            *input == self.input,
    {
        &self.input
    }
}

/// Turns motion into angles: the product with the sensitivity, both fixed-point (see
/// [`crate::fixed`]).
pub fn delta_to_angles(
    dx: i32,
    dy: i32,
    yaw_sensitivity: i64,
    pitch_sensitivity: i64,
) -> (angles: (i64, i64))
    ensures
        angles.0 == fixed::sat64(dx * yaw_sensitivity),
        angles.1 == fixed::sat64(dy * pitch_sensitivity),
{
    proof {
        lemma_product_fits(dx, yaw_sensitivity);
        lemma_product_fits(dy, pitch_sensitivity);
    }
    (
        clamp_i64(dx as i128 * yaw_sensitivity as i128),
        clamp_i64(dy as i128 * pitch_sensitivity as i128),
    )
}

proof fn lemma_product_fits(a: i32, b: i64)
    ensures
        i128::MIN <= a * b <= i128::MAX,
{
    assert(-0x8000_0000_0000_0000_0000_0000int <= a * b <= 0x8000_0000_0000_0000_0000_0000int)
        by (nonlinear_arith)
        requires
            -0x8000_0000int <= a <= 0x7fff_ffffint,
            -0x8000_0000_0000_0000int <= b <= 0x7fff_ffff_ffff_ffffint,
    ;
}

/// Two motions and then a sample give their sum, and the next sample nothing.
pub proof fn law_motion_is_taken_once(
    acc: InputAccumulator,
    a: (i32, i32),
    b: (i32, i32),
    t: i64,
    u: i64,
)
    requires
        i32::MIN <= acc.acc_dx + a.0 <= i32::MAX,
        i32::MIN <= acc.acc_dy + a.1 <= i32::MAX,
        i32::MIN <= acc.acc_dx + a.0 + b.0 <= i32::MAX,
        i32::MIN <= acc.acc_dy + a.1 + b.1 <= i32::MAX,
    ensures
        acc.moved(a.0, a.1, t).moved(b.0, b.1, u).acc_dx == acc.acc_dx + a.0 + b.0,
        acc.moved(a.0, a.1, t).moved(b.0, b.1, u).acc_dy == acc.acc_dy + a.1 + b.1,
        acc.moved(a.0, a.1, t).moved(b.0, b.1, u).last_event_qpc == u,
        acc.moved(a.0, a.1, t).emptied().acc_dx == 0,
        acc.moved(a.0, a.1, t).emptied().acc_dy == 0,
{
}

} // verus!
