//! What happens in the game at each of its frames: the rate that is measured, the frames
//! that are shown in between, and the angle by which the picture is turned.

use vstd::prelude::*;

use crate::fixed;
use crate::fixed::{clamp_i64, round_div, ONE};
use crate::shared_mem;
use crate::warp::config::{AifSharedHeader, WarpConfig};
use crate::warp::input::delta_to_angles;

verus! {

/// Places of the hooked functions in their tables.
pub const SLOT_PRESENT: usize = 8;

pub const SLOT_PRESENT1: usize = 22;

pub const SLOT_CLEAR_DEPTH_STENCIL: usize = 53;

/// The time between frames that is taken for the first one (33 ms).
pub const FIRST_DELTA_NS: u64 = 33_000_000;

/// The shortest time between frames that a rate is calculated from (1 ms).
pub const SHORTEST_FRAME_NS: u64 = 1_000_000;

/// Bounds of the pause before a frame in between (2 ms and 33 ms).
pub const SHORTEST_PAUSE_NS: u64 = 2_000_000;

pub const LONGEST_PAUSE_NS: u64 = 33_000_000;

/// Counts of motion in a test jolt.
pub const PULSE_COUNTS: i128 = 600;

/// Motion below a hundredth of a count is none, fixed-point.
pub const LEAST_MOTION: i128 = 10_000;

/// The rate of frames that are `dt` nanoseconds apart.
pub open spec fn rate_of(dt: int) -> int {
    let d = if dt < SHORTEST_FRAME_NS {
        SHORTEST_FRAME_NS as int
    } else {
        dt
    };
    fixed::round_quot(1_000_000_000_000_000, d)
}

/// The rate of frames that are `dt_ns` apart, fixed-point.
pub fn instant_rate(dt_ns: u64) -> (rate: i64)
    ensures
        rate == rate_of(dt_ns as int),
        0 <= rate <= 1_000_000_000,
{
    let d: u64 = if dt_ns < SHORTEST_FRAME_NS {
        SHORTEST_FRAME_NS
    } else {
        dt_ns
    };
    proof {
        lemma_rate_bound(d as int);
    }
    round_div(1_000_000_000_000_000, d as i128) as i64
}

proof fn lemma_rate_bound(d: int)
    requires
        d >= 1_000_000,
    ensures
        0 <= fixed::round_quot(1_000_000_000_000_000, d) <= 1_000_000_000,
{
    let n = 2_000_000_000_000_000 + d;
    vstd::arithmetic::div_mod::lemma_fundamental_div_mod(n, 2 * d);
    vstd::arithmetic::div_mod::lemma_mod_bound(n, 2 * d);
    let q = n / (2 * d);
    assert(q <= 1_000_000_000) by (nonlinear_arith)
        requires
            2 * d * q <= n,
            n == 2_000_000_000_000_000 + d,
            d >= 1_000_000,
    ;
    assert(q >= 0) by (nonlinear_arith)
        requires
            n < 2 * d * q + 2 * d,
            n > 0,
            d >= 1_000_000,
    ;
}

/// A rate after another measurement, of which `keep` twentieths are the old one.
pub open spec fn smoothed(old_rate: int, instant: int, keep: int) -> int {
    if old_rate <= 0 {
        instant
    } else {
        fixed::sat64(fixed::round_quot(old_rate * keep + instant * (20 - keep), 20))
    }
}

/// A rate after another measurement, of which `keep` twentieths are the old one.
pub fn smooth(old_rate: i64, instant: i64, keep: i64) -> (rate: i64)
    requires
        0 <= keep <= 20,
    ensures
        rate == smoothed(old_rate as int, instant as int, keep as int),
{
    if old_rate <= 0 {
        return instant;
    }
    assert(0 <= old_rate * keep <= 20 * 0x8000_0000_0000_0000int) by (nonlinear_arith)
        requires
            0 <= old_rate <= 0x7fff_ffff_ffff_ffffint,
            0 <= keep <= 20,
    ;
    assert(-20 * 0x8000_0000_0000_0000int <= instant * (20 - keep) <= 20
        * 0x8000_0000_0000_0000int) by (nonlinear_arith)
        requires
            -0x8000_0000_0000_0000int <= instant <= 0x7fff_ffff_ffff_ffffint,
            0 <= keep <= 20,
    ;
    let sum: i128 = old_rate as i128 * keep as i128 + instant as i128 * (20 - keep as i128);
    clamp_i64(round_div(sum, 20))
}

/// The frames of the game.
#[derive(Debug, Clone, Copy, PartialEq, Eq, Structural)]
pub struct FrameClock {
    pub last_ns: Option<u64>,
    pub rate: i64,
}

impl FrameClock {
    pub fn new() -> (c: FrameClock)
        ensures
            c == (FrameClock { last_ns: None, rate: 0 }),
    {
        FrameClock { last_ns: None, rate: 0 }
    }

    /// The time since the last frame.
    pub open spec fn delta(self, now: u64) -> u64 {
        match self.last_ns {
            Some(last) => if now >= last {
                (now - last) as u64
            } else {
                0
            },
            None => FIRST_DELTA_NS,
        }
    }

    /// The state after another frame.
    pub open spec fn ticked(self, now: u64) -> FrameClock {
        FrameClock {
            last_ns: Some(now),
            rate: smoothed(self.rate as int, rate_of(self.delta(now) as int), 18) as i64,
        }
    }

    /// Takes a frame and returns the time since the last one.
    pub fn tick(&mut self, now_ns: u64) -> (delta_ns: u64)
        ensures
            delta_ns == old(self).delta(now_ns),
            *final(self) == old(self).ticked(now_ns),
    {
        let delta_ns: u64 = match self.last_ns {
            Some(last) => if now_ns >= last {
                now_ns - last
            } else {
                0
            },
            None => FIRST_DELTA_NS,
        };
        self.last_ns = Some(now_ns);
        self.rate = smooth(self.rate, instant_rate(delta_ns), 18);
        delta_ns
    }
}

/// The multiplier that the shown rate is calculated with.
pub open spec fn shown_multiplier(m: u32) -> int {
    fixed::within(m as int, 1, 3)
}

/// A sum as a 64-bit counter keeps it.
pub open spec fn counted_on(a: u64, b: u32) -> u64 {
    if a + b > u64::MAX {
        (a + b - 0x1_0000_0000_0000_0000) as u64
    } else {
        (a + b) as u64
    }
}

/// What the game reports at a frame.
pub open spec fn reported(
    h: AifSharedHeader,
    clock: FrameClock,
    has_depth: bool,
) -> AifSharedHeader {
    AifSharedHeader {
        hook_state: 1,
        depth_found: shared_mem::flag_of(has_depth),
        game_fps: clock.rate,
        warped_fps: fixed::sat64(clock.rate * shown_multiplier(h.fps_multiplier)) as i64,
        frames_warped: counted_on(
            h.frames_warped,
            if h.fps_multiplier >= 1 {
                h.fps_multiplier
            } else {
                1
            },
        ),
        ..h
    }
}

/// Reports a frame of the game in the header; returns the settings for it and the time
/// since the last one.
pub fn report_frame(
    h: &mut AifSharedHeader,
    clock: &mut FrameClock,
    has_depth: bool,
    now_ns: u64,
) -> (r: (WarpConfig, u64))
    ensures
        r.0 == old(h).config_of(),
        r.1 == old(clock).delta(now_ns),
        *final(clock) == old(clock).ticked(now_ns),
        *final(h) == reported(*old(h), old(clock).ticked(now_ns), has_depth),
{
    let cfg = h.read_config();
    let delta_ns: u64 = clock.tick(now_ns);
    let m: u32 = if h.fps_multiplier < 1 {
        1
    } else if h.fps_multiplier > 3 {
        3
    } else {
        h.fps_multiplier
    };
    assert(-3 * 0x8000_0000_0000_0000int <= clock.rate * m <= 3 * 0x8000_0000_0000_0000int)
        by (nonlinear_arith)
        requires
            -0x8000_0000_0000_0000int <= clock.rate <= 0x7fff_ffff_ffff_ffffint,
            1 <= m <= 3,
    ;
    h.hook_state = 1;
    h.depth_found = if has_depth {
        1
    } else {
        0
    };
    h.game_fps = clock.rate;
    h.warped_fps = clamp_i64(clock.rate as i128 * m as i128);
    let shown: u32 = if h.fps_multiplier >= 1 {
        h.fps_multiplier
    } else {
        1
    };
    h.frames_warped = h.frames_warped.wrapping_add(shown as u64);
    (cfg, delta_ns)
}

/// The frames that are shown between two frames of the game.
#[derive(Debug, Clone, Copy, PartialEq, Eq, Structural)]
pub struct ExtraFrames {
    pub count: u32,
    /// Pause before each of them.
    pub pause_ns: u64,
}

/// The pause before each of `m` frames that share a time.
pub open spec fn pause_of(delta: int, m: int) -> int {
    fixed::within(delta / m, SHORTEST_PAUSE_NS as int, LONGEST_PAUSE_NS as int)
}

/// The pause before each of `m` frames that share `delta_ns`.
pub fn pause(delta_ns: u64, m: u32) -> (ns: u64)
    requires
        m > 0,
    ensures
        ns == pause_of(delta_ns as int, m as int),
{
    let slice: u64 = delta_ns / m as u64;
    if slice < SHORTEST_PAUSE_NS {
        SHORTEST_PAUSE_NS
    } else if slice > LONGEST_PAUSE_NS {
        LONGEST_PAUSE_NS
    } else {
        slice
    }
}

/// The frames to show after a frame of the game: one less than the multiplier, where the
/// generator is on and the game's own function is known.
pub fn extra_frames(cfg: &WarpConfig, has_original: bool, delta_ns: u64) -> (x: ExtraFrames)
    ensures
        cfg.enabled && cfg.fps_multiplier > 1 && has_original ==> x == (ExtraFrames {
            count: (cfg.fps_multiplier - 1) as u32,
            pause_ns: pause_of(delta_ns as int, cfg.fps_multiplier as int) as u64,
        }),
        !(cfg.enabled && cfg.fps_multiplier > 1 && has_original) ==> x.count == 0 && x.pause_ns
            == 0,
{
    if cfg.enabled && cfg.fps_multiplier > 1 && has_original {
        ExtraFrames {
            count: cfg.fps_multiplier - 1,
            pause_ns: pause(delta_ns, cfg.fps_multiplier),
        }
    } else {
        ExtraFrames { count: 0, pause_ns: 0 }
    }
}

/// The whole part of a fixed-point value, towards zero and within 32 bits.
pub open spec fn whole(x: int) -> int {
    let q = if x >= 0 {
        x / 1_000_000
    } else {
        -((-x) / 1_000_000)
    };
    fixed::within(q, i32::MIN as int, i32::MAX as int)
}

fn whole_part(x: i128) -> (w: i32)
    requires
        x > i128::MIN,
    ensures
        w == whole(x as int),
{
    let q: i128 = if x >= 0 {
        x / 1_000_000
    } else {
        -((-x) / 1_000_000)
    };
    if q < -0x8000_0000 {
        i32::MIN
    } else if q > 0x7fff_ffff {
        i32::MAX
    } else {
        q as i32
    }
}

/// The motion that the picture is turned by.
#[derive(Debug, Clone, Copy, PartialEq, Eq, Structural)]
pub struct WarpMotion {
    pub accum_dx: i64,
    pub accum_dy: i64,
    pub last_pulse: u32,
}

pub open spec fn is_still(x: int) -> bool {
    -LEAST_MOTION < x < LEAST_MOTION
}

impl WarpMotion {
    pub fn new() -> (m: WarpMotion)
        ensures
            m == (WarpMotion { accum_dx: 0, accum_dy: 0, last_pulse: 0 }),
    {
        WarpMotion { accum_dx: 0, accum_dy: 0, last_pulse: 0 }
    }

    /// The motion since the last frame of the game.
    pub open spec fn gathered(self, extra: bool, dx: i32, dy: i32) -> WarpMotion {
        if extra {
            WarpMotion {
                accum_dx: fixed::sat64(self.accum_dx + dx) as i64,
                accum_dy: fixed::sat64(self.accum_dy + dy) as i64,
                ..self
            }
        } else {
            WarpMotion { accum_dx: dx as i64, accum_dy: dy as i64, ..self }
        }
    }

    /// Horizontal motion with the tests on top.
    pub open spec fn swayed(self, cfg: WarpConfig, wave: i64) -> int {
        self.accum_dx * ONE + (if cfg.test_pulse != self.last_pulse {
            PULSE_COUNTS * ONE
        } else {
            0
        }) + (if cfg.continuous_test_wave {
            wave as int
        } else {
            0
        })
    }

    /// Takes the motion since the last picture and returns the angles for the next one.
    /// A frame of the game starts from nothing; one in between adds to what came before.
    /// `wave` is the sway of the continuous test, in fixed-point counts.
    pub fn turn(
        &mut self,
        cfg: &WarpConfig,
        extra: bool,
        dx: i32,
        dy: i32,
        wave: i64,
    ) -> (angles: (i64, i64))
        ensures
            ({
                let m = old(self).gathered(extra, dx, dy);
                let x = m.swayed(*cfg, wave);
                let y = m.accum_dy * ONE;
                &&& *final(self) == (WarpMotion { last_pulse: cfg.test_pulse, ..m })
                &&& is_still(x) && is_still(y) ==> angles == (0i64, 0i64)
                &&& !(is_still(x) && is_still(y)) ==> {
                    &&& angles.0 == fixed::sat64(whole(x) * cfg.yaw_sensitivity)
                    &&& angles.1 == fixed::sat64(whole(y) * cfg.pitch_sensitivity)
                }
            }),
    {
        if !extra {
            self.accum_dx = 0;
            self.accum_dy = 0;
        }
        self.accum_dx = clamp_i64(self.accum_dx as i128 + dx as i128);
        self.accum_dy = clamp_i64(self.accum_dy as i128 + dy as i128);
        let mut x: i128 = self.accum_dx as i128 * ONE;
        let y: i128 = self.accum_dy as i128 * ONE;
        if cfg.test_pulse != self.last_pulse {
            self.last_pulse = cfg.test_pulse;
            x = x + 600_000_000;
        }
        if cfg.continuous_test_wave {
            x = x + wave as i128;
        }
        if x < LEAST_MOTION && x > -LEAST_MOTION && y < LEAST_MOTION && y > -LEAST_MOTION {
            (0, 0)
        } else {
            delta_to_angles(
                whole_part(x),
                whole_part(y),
                cfg.yaw_sensitivity,
                cfg.pitch_sensitivity,
            )
        }
    }
}

/// Formats of a depth buffer.
pub const FORMAT_D32_FLOAT: u32 = 40;

pub const FORMAT_R32_FLOAT: u32 = 41;

pub const FORMAT_D24_UNORM_S8_UINT: u32 = 45;

pub const FORMAT_R24_UNORM_X8_TYPELESS: u32 = 46;

/// The format under which a depth buffer is read.
pub open spec fn view_format_of(format: u32) -> u32 {
    if format == FORMAT_D24_UNORM_S8_UINT || format == FORMAT_R24_UNORM_X8_TYPELESS {
        FORMAT_R24_UNORM_X8_TYPELESS
    } else {
        FORMAT_R32_FLOAT
    }
}

/// A copy of a depth buffer.
#[derive(Debug, Clone, Copy, PartialEq, Eq, Structural)]
pub struct DepthCopyTarget {
    pub width: u32,
    pub height: u32,
    pub format: u32,
}

/// What is done for a picture's depth.
#[derive(Debug, Clone, Copy, PartialEq, Eq, Structural)]
pub enum DepthPlan {
    /// There is no depth buffer of the picture's size.
    Skip,
    /// Copy into the texture that is there.
    Reuse,
    /// Make a texture like this and copy into it.
    Recreate(DepthCopyTarget),
}

/// The depth buffer of the game.
#[derive(Debug, Clone, Copy, PartialEq, Eq, Structural)]
pub struct DepthTracker {
    pub found: bool,
    pub shadow: Option<DepthCopyTarget>,
}

impl DepthTracker {
    pub fn new() -> (t: DepthTracker)
        ensures
            t == (DepthTracker { found: false, shadow: None }),
    {
        DepthTracker { found: false, shadow: None }
    }

    /// The game cleared a depth buffer.
    pub fn register_depth_resource(&mut self)
        ensures
            *final(self) == (DepthTracker { found: true, ..*old(self) }),
    {
        self.found = true;
    }

    pub fn has_active_depth(&self) -> (found: bool)
        ensures
            found == self.found,
    {
        self.found
    }

    /// The copy that a depth buffer needs.
    pub open spec fn wanted(width: u32, height: u32, format: u32) -> DepthCopyTarget {
        DepthCopyTarget { width, height, format: view_format_of(format) }
    }

    /// What is done with a depth buffer of the given kind for a picture of the given size.
    pub fn plan(
        &self,
        width: u32,
        height: u32,
        format: u32,
        target_width: u32,
        target_height: u32,
    ) -> (p: DepthPlan)
        ensures
            p == if !self.found || width != target_width || height != target_height {
                DepthPlan::Skip
            } else if self.shadow == Some(DepthTracker::wanted(width, height, format)) {
                DepthPlan::Reuse
            } else {
                DepthPlan::Recreate(DepthTracker::wanted(width, height, format))
            },
    {
        if !self.found || width != target_width || height != target_height {
            return DepthPlan::Skip;
        }
        let view: u32 = if format == FORMAT_D24_UNORM_S8_UINT || format
            == FORMAT_R24_UNORM_X8_TYPELESS {
            FORMAT_R24_UNORM_X8_TYPELESS
        } else {
            FORMAT_R32_FLOAT
        };
        let wanted = DepthCopyTarget { width, height, format: view };
        match self.shadow {
            Some(s) => if s == wanted {
                DepthPlan::Reuse
            } else {
                DepthPlan::Recreate(wanted)
            },
            None => DepthPlan::Recreate(wanted),
        }
    }

    /// The texture that a plan asked for is there.
    pub fn recreated(&mut self, target: DepthCopyTarget)
        ensures
            *final(self) == (DepthTracker { shadow: Some(target), ..*old(self) }),
    {
        self.shadow = Some(target);
    }
}

/// Textures of one size.
#[derive(Debug, Clone, Copy, PartialEq, Eq, Structural)]
pub struct Textures {
    pub width: u32,
    pub height: u32,
    pub ready: bool,
}

impl Textures {
    pub fn new() -> (t: Textures)
        ensures
            t == (Textures { width: 0, height: 0, ready: false }),
    {
        Textures { width: 0, height: 0, ready: false }
    }

    /// Do they have to be made for this size?
    pub fn need(&self, width: u32, height: u32) -> (need: bool)
        ensures
            need == (*self != (Textures { width, height, ready: true })),
    {
        !(self.width == width && self.height == height && self.ready)
    }

    /// They were made.
    pub fn made(&mut self, width: u32, height: u32)
        ensures
            *final(self) == (Textures { width, height, ready: true }),
    {
        self.width = width;
        self.height = height;
        self.ready = true;
    }
}

/// Groups of sixteen that cover `n` pixels.
pub open spec fn groups_of(n: int) -> int {
    (n + 15) / 16
}

/// Groups of sixteen that cover `n` pixels.
pub fn groups(n: u32) -> (g: u32)
    ensures
        g == groups_of(n as int),
        16 * g >= n,
        16 * g < n + 16,
{
    ((n as u64 + 15) / 16) as u32
}

/// The groups that cover a picture; an empty picture has none.
pub fn dispatch_size(width: u32, height: u32) -> (size: Option<(u32, u32)>)
    ensures
        size is Some <==> width != 0 && height != 0,
        size is Some ==> (size->0).0 == groups_of(width as int) && (size->0).1 == groups_of(
            height as int,
        ),
{
    if width == 0 || height == 0 {
        None
    } else {
        Some((groups(width), groups(height)))
    }
}

/// Half of a side of the picture, for the coarse search.
pub fn half(n: u32) -> (h: u32)
    ensures
        h == if n / 2 >= 1 {
            n / 2
        } else {
            1
        },
{
    if n / 2 >= 1 {
        n / 2
    } else {
        1
    }
}

/// The size of a constant buffer: a multiple of sixteen bytes.
pub fn buffer_size(bytes: u32) -> (size: u64)
    ensures
        size == groups_of(bytes as int) * 16,
        size % 16 == 0,
        size >= bytes,
{
    groups(bytes) as u64 * 16
}

/// The hooks are put in place once.
#[derive(Debug, Clone, Copy, PartialEq, Eq, Structural)]
pub struct HookSwitch {
    pub installed: bool,
}

impl HookSwitch {
    pub fn new() -> (s: HookSwitch)
        ensures
            !s.installed,
    {
        HookSwitch { installed: false }
    }

    /// When the result is true the caller puts the hooks in place.
    pub fn install(&mut self) -> (first: bool)
        ensures
            first == !old(self).installed,
            final(self).installed,
    {
        let first = !self.installed;
        self.installed = true;
        first
    }
}

/// Without motion and without a test the picture is not turned.
pub proof fn law_still_mouse_leaves_the_picture(m: WarpMotion, cfg: WarpConfig, wave: i64)
    requires
        cfg.test_pulse == m.last_pulse,
        !cfg.continuous_test_wave,
    ensures
        is_still(m.gathered(false, 0, 0).swayed(cfg, wave)),
        is_still(m.gathered(false, 0, 0).accum_dy * ONE),
{
}

/// A smoothed rate lies between the old rate and the measured one.
pub proof fn law_smoothed_rate_lies_between(old_rate: int, instant: int, keep: int)
    requires
        0 < old_rate <= i64::MAX,
        0 <= instant <= i64::MAX,
        0 <= keep <= 20,
    ensures
        old_rate <= instant ==> old_rate <= smoothed(old_rate, instant, keep) <= instant,
        instant <= old_rate ==> instant <= smoothed(old_rate, instant, keep) <= old_rate,
{
    let sum = old_rate * keep + instant * (20 - keep);
    assert(old_rate <= instant ==> 20 * old_rate <= sum <= 20 * instant) by (nonlinear_arith)
        requires
            sum == old_rate * keep + instant * (20 - keep),
            0 <= keep <= 20,
    ;
    assert(instant <= old_rate ==> 20 * instant <= sum <= 20 * old_rate) by (nonlinear_arith)
        requires
            sum == old_rate * keep + instant * (20 - keep),
            0 <= keep <= 20,
    ;
    let q = fixed::round_quot(sum, 20);
    assert(q == (2 * sum + 20) / 40);
    assert(smoothed(old_rate, instant, keep) == fixed::sat64(q));
    if old_rate <= instant {
        assert(old_rate <= q <= instant);
    } else {
        assert(instant <= q <= old_rate);
    }
}

/// A pause keeps within its bounds, however long the frame took.
pub proof fn law_pauses_are_bounded(delta: u64, m: u32)
    requires
        m > 0,
    ensures
        SHORTEST_PAUSE_NS <= pause_of(delta as int, m as int) <= LONGEST_PAUSE_NS,
{
}

} // verus!
