//! Just-in-time start pacing.
//!
//! A completed frame is never held: the real present call executes at once, and
//! the pacer then delays only the *start* of the next frame, so that it completes
//! just in time for the display tick it aims at. Input is sampled as late as
//! possible and the frame that just finished gains no latency.
//!
//! All instants are readings of the performance counter (ticks); durations and
//! rates are fixed-point numbers (see [`crate::fixed`]).

use vstd::prelude::*;

use crate::fixed;
use crate::fixed::{ceil_div, clamp_i64, round_div, ONE, SECOND_US};

verus! {

/// Frames shorter than this many whole microseconds are duplicate presents or
/// secondary swapchains, not samples of the game's frame time.
pub const MIN_FRAME_US: i128 = 50;

/// Lowest frame rate that the pacer works with (0.1 frames per second).
pub const FPS_FLOOR: i64 = 100_000;

/// Refresh rate taken for a display whose reported rate is implausible (60 Hz).
pub const DEFAULT_REFRESH_HZ: i64 = 60_000_000;

/// A stall is clamped to this many target intervals before it enters the estimate.
pub const STALL_INTERVALS: i128 = 4;

/// Fixed-point microseconds that `ticks` counter ticks take at `freq` ticks per
/// second; zero for a frequency that is not positive.
pub open spec fn ticks_to_us(ticks: int, freq: int) -> int {
    if freq <= 0 {
        0
    } else {
        fixed::round_quot(ticks * SECOND_US, freq)
    }
}

/// Counter ticks nearest to `us` fixed-point microseconds at `freq` ticks per
/// second; zero for a frequency that is not positive.
pub open spec fn us_to_ticks(us: int, freq: int) -> int {
    if freq <= 0 {
        0
    } else {
        fixed::sat64(fixed::round_quot(us * freq, SECOND_US as int))
    }
}

/// Converts counter ticks to fixed-point microseconds.
pub fn qpc_to_us(ticks: i64, freq: i64) -> (us: i128)
    ensures
        us == ticks_to_us(ticks as int, freq as int),
{
    wide_qpc_to_us(ticks as i128, freq)
}

/// Converts a span of ticks between any two readings to fixed-point microseconds.
pub fn wide_qpc_to_us(ticks: i128, freq: i64) -> (us: i128)
    requires
        -0x1_0000_0000_0000_0000 <= ticks <= 0x1_0000_0000_0000_0000,
    ensures
        us == ticks_to_us(ticks as int, freq as int),
{
    if freq <= 0 {
        return 0;
    }
    round_div(ticks * SECOND_US, freq as i128)
}

/// Converts fixed-point microseconds to the nearest counter tick.
pub fn us_to_qpc(us: i64, freq: i64) -> (ticks: i64)
    ensures
        ticks == us_to_ticks(us as int, freq as int),
{
    if freq <= 0 {
        return 0;
    }
    proof {
        lemma_product_of_words(us as int, freq as int);
    }
    clamp_i64(round_div(us as i128 * freq as i128, SECOND_US))
}

proof fn lemma_product_of_words(a: int, b: int)
    requires
        i64::MIN <= a <= i64::MAX,
        i64::MIN <= b <= i64::MAX,
    ensures
        -0x4000_0000_0000_0000_0000_0000_0000_0000 <= a * b <= 0x4000_0000_0000_0000_0000_0000_0000_0000,
{
    assert(-0x4000_0000_0000_0000_0000_0000_0000_0000 <= a * b
        <= 0x4000_0000_0000_0000_0000_0000_0000_0000) by (nonlinear_arith)
        requires
            -0x8000_0000_0000_0000 <= a <= 0x8000_0000_0000_0000,
            -0x8000_0000_0000_0000 <= b <= 0x8000_0000_0000_0000,
    ;
}

/// Pacing strategy.
#[derive(Debug, Clone, Copy, PartialEq, Eq, Structural)]
pub enum PacerMode {
    /// Start-to-start pacing for displays with a variable refresh rate.
    Vrr,
    /// Frame completion aligned to the n-th vblank of the display grid; a ratio of
    /// refresh rate to target rate that is not whole is spread by a Bresenham walk.
    FixedVsync,
    /// The limiter never delays the game thread.
    Bypass,
}

impl PacerMode {
    pub open spec fn code(self) -> u32 {
        match self {
            PacerMode::Vrr => 0,
            PacerMode::FixedVsync => 1,
            PacerMode::Bypass => 2,
        }
    }

    /// The mode with the given code; unknown codes leave the limiter inert.
    pub fn from_u32(v: u32) -> (mode: PacerMode)
        ensures
            v <= 2 ==> mode.code() == v,
            v > 2 ==> mode == PacerMode::Bypass,
    {
        match v {
            0 => PacerMode::Vrr,
            1 => PacerMode::FixedVsync,
            _ => PacerMode::Bypass,
        }
    }

    pub fn as_u32(self) -> (v: u32)
        ensures
            v == self.code(),
    {
        match self {
            PacerMode::Vrr => 0,
            PacerMode::FixedVsync => 1,
            PacerMode::Bypass => 2,
        }
    }
}

/// Settings of a pacer.
#[derive(Debug, Clone, Copy, PartialEq, Eq, Structural)]
pub struct PacerConfig {
    /// Desired frame rate cap (fixed-point frames per second).
    pub target_fps: i64,
    pub mode: PacerMode,
    /// Margin (fixed-point µs) kept between the predicted completion of a frame and
    /// its display tick.
    pub base_safety_margin_us: i64,
    /// Fixed-point factor by which the measured deviation widens the margin.
    pub variance_multiplier: i32,
    /// Fixed-point smoothing factor of the frame-duration estimate.
    pub ema_alpha: i32,
    /// Fixed-point smoothing factor of the absolute-deviation estimate.
    pub deviation_beta: i32,
}

impl Default for PacerConfig {
    fn default() -> (cfg: PacerConfig)
        ensures
            cfg == (PacerConfig {
                target_fps: 60_000_000,
                mode: PacerMode::FixedVsync,
                base_safety_margin_us: 300_000_000,
                variance_multiplier: 2_000_000,
                ema_alpha: 150_000,
                deviation_beta: 100_000,
            }),
    {
        PacerConfig {
            target_fps: 60_000_000,
            mode: PacerMode::FixedVsync,
            base_safety_margin_us: 300_000_000,
            variance_multiplier: 2_000_000,
            ema_alpha: 150_000,
            deviation_beta: 100_000,
        }
    }
}

impl PacerConfig {
    /// The base margin suited to a mode: vblank alignment needs the widest one.
    pub open spec fn margin_for(mode: PacerMode) -> i64 {
        match mode {
            PacerMode::Vrr => 50_000_000,
            PacerMode::FixedVsync => 250_000_000,
            PacerMode::Bypass => 0,
        }
    }

    /// The settings for a mode and a frame rate cap.
    pub fn for_mode(mode: PacerMode, target_fps: i64) -> (cfg: PacerConfig)
        ensures
            cfg == (PacerConfig {
                target_fps,
                mode,
                base_safety_margin_us: PacerConfig::margin_for(mode),
                variance_multiplier: 2_000_000,
                ema_alpha: 150_000,
                deviation_beta: 100_000,
            }),
    {
        let base_safety_margin_us: i64 = match mode {
            PacerMode::Vrr => 50_000_000,
            PacerMode::FixedVsync => 250_000_000,
            PacerMode::Bypass => 0,
        };
        PacerConfig {
            target_fps,
            mode,
            base_safety_margin_us,
            variance_multiplier: 2_000_000,
            ema_alpha: 150_000,
            deviation_beta: 100_000,
        }
    }

    /// Fixed-point microseconds between two frames at the target rate.
    pub open spec fn interval_us(self) -> int {
        fixed::round_quot(
            SECOND_US * ONE,
            if self.target_fps < FPS_FLOOR {
                FPS_FLOOR as int
            } else {
                self.target_fps as int
            },
        )
    }

    /// The interval between two frames in ticks, nothing where the counter is too slow for
    /// it.
    pub open spec fn interval_qpc(self, freq: int) -> int {
        us_to_ticks(self.interval_us(), freq)
    }

    /// Frame duration (fixed-point µs) at which the game no longer sustains the
    /// target rate with the base margin to spare.
    pub open spec fn budget_us(self) -> int {
        self.interval_us() - self.base_safety_margin_us
    }
}

/// Display tick information sampled around a present call.
#[derive(Debug, Clone, Copy, PartialEq, Eq, Structural)]
pub struct VBlankHint {
    /// Refresh rate of the display (fixed-point Hz).
    pub refresh_hz: i64,
    /// Counter reading of the most recent vblank.
    pub last_vblank_qpc: i64,
}

impl VBlankHint {
    /// The refresh rate that is worked with: a reported rate of 1 Hz or less is
    /// taken for 60 Hz.
    pub open spec fn rate(self) -> int {
        if self.refresh_hz > ONE {
            self.refresh_hz as int
        } else {
            DEFAULT_REFRESH_HZ as int
        }
    }

    /// Ticks between two vblanks, nothing where the counter is too slow for them.
    pub open spec fn refresh_qpc(self, freq: int) -> int {
        us_to_ticks(fixed::round_quot(SECOND_US * ONE, self.rate()), freq)
    }
}

/// What the pacer measured and estimated for one frame.
#[derive(Debug, Clone, Copy, PartialEq, Eq, Structural)]
pub struct PacerStats {
    /// Cost of the frame that just finished, from its release to the end of its
    /// present call (fixed-point µs).
    pub frame_duration_us: i128,
    /// Smoothed frame duration (fixed-point µs).
    pub ema_duration_us: i64,
    /// Smoothed absolute deviation (fixed-point µs).
    pub deviation_us: i64,
    /// Margin applied before the display tick (fixed-point µs).
    pub safety_margin_us: i64,
    /// How long the next frame's start is delayed (fixed-point µs).
    pub sleep_us: i128,
    /// The limiter stepped aside.
    pub bypass: bool,
    /// The frame finished after its scheduled slot.
    pub late: bool,
}

/// When to start the next frame, and what it aims at.
#[derive(Debug, Clone, Copy, PartialEq, Eq, Structural)]
pub struct PacerDecision {
    /// Reading at which the next frame may start.
    pub wake_qpc: i64,
    /// Display tick that the next frame is to complete just before.
    pub target_tick_qpc: i64,
    /// Display ticks advanced since the previous target.
    pub cadence_step: i64,
    pub stats: PacerStats,
}

/// The mathematical state of a [`JitPacer`].
pub struct PacerModel {
    pub freq: int,
    pub cfg: PacerConfig,
    pub ema_us: int,
    pub dev_us: int,
    /// Reading at which the current frame started; zero before the first frame.
    pub last_release: int,
    /// Display tick that the current frame was aimed at.
    pub last_target: int,
    /// Number of that tick on the vblank grid.
    pub last_index: int,
    /// Number and reading of the last vblank that a hint reported.
    pub hint_index: int,
    pub hint_qpc: int,
    /// The fraction `acc_num / acc_den` of a vblank that the cadence carries over.
    pub acc_num: int,
    pub acc_den: int,
    /// A target of nothing was walked by: no sum of vblanks ends the walk since.
    pub endless: bool,
    pub frames: int,
}

/// The estimator's view of one frame.
pub struct Estimate {
    pub ema_us: int,
    pub dev_us: int,
    pub margin_us: int,
    /// Ticks before the display tick at which the next frame has to start.
    pub lead: int,
    /// The frame consumed its whole budget.
    pub overloaded: bool,
}

/// Where the next frame starts and what it aims at.
pub struct Plan {
    pub wake: int,
    pub target: int,
    pub step: int,
    pub late: bool,
}

/// The first of the instants `slot, slot + interval, slot + 2 * interval, ...` that
/// is not before `earliest`. Without an interval no later one follows: then it is
/// `earliest` itself.
pub open spec fn first_slot(slot: int, interval: int, earliest: int) -> int {
    if slot >= earliest {
        slot
    } else if interval <= 0 {
        earliest
    } else {
        slot + fixed::ceil_quot(earliest - slot, interval) * interval
    }
}

/// More than any count: what a span that is not empty holds of intervals without length.
pub open spec fn beyond(span: int) -> int {
    if span > 0 {
        i64::MAX as int
    } else if span < 0 {
        i64::MIN as int
    } else {
        0
    }
}

/// Intervals that a span comes nearest to.
pub open spec fn intervals_near(span: int, interval: int) -> int {
    if interval > 0 {
        fixed::round_quot(span, interval)
    } else {
        beyond(span)
    }
}

/// Intervals that it takes to cover a span.
pub open spec fn intervals_over(span: int, interval: int) -> int {
    if interval > 0 {
        fixed::ceil_quot(span, interval)
    } else {
        beyond(span)
    }
}

pub open spec fn later_of(a: int, b: int) -> int {
    if a >= b {
        a
    } else {
        b
    }
}

impl PacerModel {
    /// A pacer without history. A frequency below one tick per second is taken for one.
    pub open spec fn fresh(cfg: PacerConfig, freq: int) -> PacerModel {
        PacerModel {
            freq: later_of(freq, 1),
            cfg,
            ema_us: 0,
            dev_us: 0,
            last_release: 0,
            last_target: 0,
            last_index: 0,
            hint_index: 0,
            hint_qpc: 0,
            acc_num: 0,
            acc_den: 1,
            endless: false,
            frames: 0,
        }
    }

    /// Too little time has passed since the release for this to be a frame.
    pub open spec fn is_short(self, end: int) -> bool {
        (end - self.last_release) * 1_000_000 < MIN_FRAME_US * self.freq
    }

    pub open spec fn duration_us(self, end: int) -> int {
        ticks_to_us(end - self.last_release, self.freq)
    }

    /// The estimator's sample for a frame: its duration, with stalls cut off.
    pub open spec fn sample_us(self, end: int) -> int {
        let floor = MIN_FRAME_US * ONE;
        fixed::within(
            self.duration_us(end),
            floor,
            later_of(floor, STALL_INTERVALS * self.cfg.interval_us()),
        )
    }

    pub open spec fn estimate(self, end: int) -> Estimate {
        let sample = self.sample_us(end);
        let delta = sample - self.ema_us;
        let ema_us = if self.frames == 1 {
            sample
        } else {
            fixed::sat64(
                self.ema_us + fixed::round_quot(self.cfg.ema_alpha * delta, ONE as int),
            )
        };
        let dev_us = if self.frames == 1 {
            0
        } else {
            fixed::sat64(
                fixed::round_quot(
                    (ONE - self.cfg.deviation_beta) * self.dev_us + self.cfg.deviation_beta * (
                    if delta < 0 {
                        -delta
                    } else {
                        delta
                    }),
                    ONE as int,
                ),
            )
        };
        let margin_us = fixed::sat64(
            self.cfg.base_safety_margin_us + fixed::round_quot(
                self.cfg.variance_multiplier * dev_us,
                ONE as int,
            ),
        );
        Estimate {
            ema_us,
            dev_us,
            margin_us,
            lead: us_to_ticks(fixed::sat64(ema_us + margin_us), self.freq),
            overloaded: self.duration_us(end) >= self.cfg.budget_us(),
        }
    }

    /// Start of the next frame for a given display tick.
    pub open spec fn wake_for(est: Estimate, target: int, end: int) -> int {
        if est.overloaded {
            end
        } else {
            later_of(fixed::sat64(target - est.lead), end)
        }
    }

    /// Pacing on a grid of target intervals. An overloaded frame moves the grid to
    /// itself where `resync` is set.
    pub open spec fn slot_plan(self, est: Estimate, end: int, resync: bool) -> Plan {
        let interval = self.cfg.interval_qpc(self.freq);
        let next = self.last_target + interval;
        let slot = first_slot(next, interval, end + est.lead);
        let target = fixed::sat64(
            if resync && est.overloaded {
                end + interval
            } else {
                slot
            },
        );
        Plan { wake: PacerModel::wake_for(est, target, end), target, step: 1, late: slot > next }
    }

    /// The frame rate that the cadence divides the refresh rate by: the target, as far as
    /// the display follows it. A negative target counts by its size.
    pub open spec fn cadence_rate(self, hint: VBlankHint) -> int {
        if self.cfg.target_fps < 0 {
            -self.cfg.target_fps
        } else if self.cfg.target_fps < hint.rate() {
            self.cfg.target_fps as int
        } else {
            hint.rate()
        }
    }

    /// The cadence has no end: the target is nothing, or was.
    pub open spec fn walks_on(self) -> bool {
        self.endless || self.cfg.target_fps == 0
    }

    /// The carried fraction of a vblank, over the denominator `rate`.
    pub open spec fn carried(self, rate: int) -> int {
        if self.acc_den == rate {
            self.acc_num
        } else {
            (self.acc_num * rate) / self.acc_den
        }
    }

    /// The fraction of a vblank that the walk stands at after this frame, over the
    /// denominator `rate`, with the whole vblanks in front of it. A negative target walks
    /// backwards.
    pub open spec fn walked(self, hint: VBlankHint) -> int {
        let carried = self.carried(self.cadence_rate(hint));
        if self.cfg.target_fps < 0 {
            carried - hint.rate()
        } else {
            carried + hint.rate()
        }
    }

    /// Vblanks that the cadence advances for this frame: one where it walks backwards, and
    /// as many as can be counted where it has no end.
    pub open spec fn cadence_vblanks(self, hint: VBlankHint) -> int {
        if self.walks_on() {
            i64::MAX as int
        } else if self.cfg.target_fps < 0 {
            1
        } else {
            self.walked(hint) / self.cadence_rate(hint)
        }
    }

    /// Number of the vblank that `hint` reports.
    pub open spec fn index_of_hint(self, hint: VBlankHint) -> int {
        if self.frames > 1 && self.hint_qpc != 0 {
            let elapsed = intervals_near(
                hint.last_vblank_qpc - self.hint_qpc,
                hint.refresh_qpc(self.freq),
            );
            fixed::sat64(self.hint_index + later_of(elapsed, 0))
        } else {
            self.hint_index
        }
    }

    /// Number of the vblank that the cadence is due for.
    pub open spec fn due_index(self, hint: VBlankHint) -> int {
        self.last_index + self.cadence_vblanks(hint)
    }

    /// Number of the first vblank that the next frame can still make.
    pub open spec fn feasible_index(self, est: Estimate, end: int, hint: VBlankHint) -> int {
        self.index_of_hint(hint) + intervals_over(
            end + est.lead - hint.last_vblank_qpc,
            hint.refresh_qpc(self.freq),
        )
    }

    /// Number of the vblank that the next frame aims at.
    pub open spec fn vblank_index(self, est: Estimate, end: int, hint: VBlankHint) -> int {
        if est.overloaded {
            self.feasible_index(est, end, hint)
        } else {
            later_of(self.due_index(hint), self.feasible_index(est, end, hint))
        }
    }

    /// Pacing on the vblank grid.
    pub open spec fn vblank_plan(self, est: Estimate, end: int, hint: VBlankHint) -> Plan {
        let index = self.vblank_index(est, end, hint);
        let target = fixed::sat64(
            hint.last_vblank_qpc + fixed::sat64(index - self.index_of_hint(hint))
                * hint.refresh_qpc(self.freq),
        );
        Plan {
            wake: PacerModel::wake_for(est, target, end),
            target,
            step: fixed::sat64(index - self.last_index),
            late: self.due_index(hint) < self.feasible_index(est, end, hint),
        }
    }

    /// The plan for a frame that counts.
    pub open spec fn plan(self, end: int, hint: Option<VBlankHint>) -> Plan {
        let est = self.estimate(end);
        match (self.cfg.mode, hint) {
            (PacerMode::Bypass, _) => Plan { wake: end, target: end, step: 0, late: false },
            (PacerMode::Vrr, _) => self.slot_plan(est, end, true),
            (PacerMode::FixedVsync, None) => self.slot_plan(est, end, false),
            (PacerMode::FixedVsync, Some(h)) => self.vblank_plan(est, end, h),
        }
    }

    pub open spec fn next_frames(self) -> int {
        if self.frames < u64::MAX {
            self.frames + 1
        } else {
            self.frames
        }
    }

    /// The state after a present call that ended at `end`.
    pub open spec fn after(self, end: int, hint: Option<VBlankHint>) -> PacerModel {
        if self.last_release == 0 {
            PacerModel {
                last_release: end,
                last_target: end,
                hint_qpc: match hint {
                    Some(h) => h.last_vblank_qpc as int,
                    None => self.hint_qpc,
                },
                frames: self.next_frames(),
                ..self
            }
        } else if self.is_short(end) {
            PacerModel { frames: self.next_frames(), ..self }
        } else {
            let est = self.estimate(end);
            let plan = self.plan(end, hint);
            let paced = PacerModel {
                ema_us: est.ema_us,
                dev_us: est.dev_us,
                last_target: plan.target,
                frames: self.next_frames(),
                ..self
            };
            if self.cfg.mode != PacerMode::FixedVsync {
                paced
            } else {
                let stepped = PacerModel {
                    last_index: fixed::sat64(self.last_index + plan.step),
                    ..paced
                };
                match hint {
                    None => stepped,
                    Some(h) => {
                        let rate = self.cadence_rate(h);
                        let seen = PacerModel {
                            hint_index: self.index_of_hint(h),
                            hint_qpc: h.last_vblank_qpc as int,
                            ..stepped
                        };
                        if self.walks_on() {
                            PacerModel { endless: true, ..seen }
                        } else {
                            PacerModel { acc_num: self.walked(h) % rate, acc_den: rate, ..seen }
                        }
                    },
                }
            }
        }
    }

    /// The limiter steps aside after a present call that ended at `end`.
    pub open spec fn bypasses(self, end: int, hint: Option<VBlankHint>) -> bool {
        self.last_release == 0 || self.is_short(end) || self.plan(end, hint).wake == end
    }

    /// The decision for a present call that ended at `end`.
    pub open spec fn decides(self, end: int, hint: Option<VBlankHint>, d: PacerDecision) -> bool {
        if self.last_release == 0 || self.is_short(end) {
            &&& d.wake_qpc == end
            &&& d.target_tick_qpc == end
            &&& d.cadence_step == 0
            &&& d.stats == (PacerStats {
                frame_duration_us: 0,
                ema_duration_us: 0,
                deviation_us: 0,
                safety_margin_us: 0,
                sleep_us: 0,
                bypass: true,
                late: false,
            })
        } else {
            let est = self.estimate(end);
            let plan = self.plan(end, hint);
            &&& d.wake_qpc == plan.wake
            &&& d.target_tick_qpc == plan.target
            &&& d.cadence_step == plan.step
            &&& d.stats.frame_duration_us == self.duration_us(end)
            &&& d.stats.ema_duration_us == est.ema_us
            &&& d.stats.deviation_us == est.dev_us
            &&& d.stats.safety_margin_us == est.margin_us
            &&& d.stats.sleep_us == ticks_to_us(plan.wake - end, self.freq)
            &&& d.stats.bypass == (plan.wake == end)
            &&& d.stats.late == plan.late
        }
    }
}

/// Just-in-time start pacer, one per swapchain.
///
/// [`JitPacer::on_present_complete`] is called when the real present call has
/// returned; the caller sleeps until the decision's `wake_qpc` and reports the
/// actual wake-up with [`JitPacer::mark_released`].
pub struct JitPacer {
    freq: i64,
    cfg: PacerConfig,
    ema_us: i64,
    dev_us: i64,
    last_release_qpc: i64,
    last_target_qpc: i64,
    last_target_index: i64,
    hint_index: i64,
    hint_qpc: i64,
    carry: Carry,
    frames: u64,
}

/// A fraction of a vblank.
#[derive(Clone, Copy)]
struct Carry {
    num: i64,
    den: i128,
    endless: bool,
}

struct FrameEstimate {
    ema_us: i64,
    dev_us: i64,
    margin_us: i64,
    lead_qpc: i64,
    overloaded: bool,
}

struct FramePlan {
    wake_qpc: i64,
    target_qpc: i64,
    step: i64,
    late: bool,
}

impl View for FrameEstimate {
    type V = Estimate;

    closed spec fn view(&self) -> Estimate {
        Estimate {
            ema_us: self.ema_us as int,
            dev_us: self.dev_us as int,
            margin_us: self.margin_us as int,
            lead: self.lead_qpc as int,
            overloaded: self.overloaded,
        }
    }
}

impl View for FramePlan {
    type V = Plan;

    closed spec fn view(&self) -> Plan {
        Plan {
            wake: self.wake_qpc as int,
            target: self.target_qpc as int,
            step: self.step as int,
            late: self.late,
        }
    }
}

impl View for JitPacer {
    type V = PacerModel;

    closed spec fn view(&self) -> PacerModel {
        PacerModel {
            freq: self.freq as int,
            cfg: self.cfg,
            ema_us: self.ema_us as int,
            dev_us: self.dev_us as int,
            last_release: self.last_release_qpc as int,
            last_target: self.last_target_qpc as int,
            last_index: self.last_target_index as int,
            hint_index: self.hint_index as int,
            hint_qpc: self.hint_qpc as int,
            acc_num: self.carry.num as int,
            acc_den: self.carry.den as int,
            endless: self.carry.endless,
            frames: self.frames as int,
        }
    }
}

/// Interval between two events at a fixed-point rate, in fixed-point microseconds.
fn interval_of_rate(rate: i64) -> (us: i64)
    requires
        rate > 0,
    ensures
        us == fixed::round_quot(SECOND_US * ONE, rate as int),
        0 <= us <= SECOND_US * ONE,
{
    let q: i128 = round_div(SECOND_US * ONE, rate as i128);
    proof {
        lemma_round_of_positive(SECOND_US * ONE, rate as int);
    }
    q as i64
}

proof fn lemma_round_of_positive(a: int, b: int)
    requires
        a >= 0,
        b > 0,
    ensures
        0 <= fixed::round_quot(a, b) <= a,
{
    vstd::arithmetic::div_mod::lemma_fundamental_div_mod(2 * a + b, 2 * b);
    vstd::arithmetic::div_mod::lemma_mod_bound(2 * a + b, 2 * b);
    let q = (2 * a + b) / (2 * b);
    let r = (2 * a + b) % (2 * b);
    assert(0 <= q <= a) by (nonlinear_arith)
        requires
            2 * a + b == (2 * b) * q + r,
            0 <= r < 2 * b,
            a >= 0,
            b > 0,
    ;
}

/// A time that is not negative takes no negative number of ticks.
pub proof fn lemma_ticks_of_positive(us: int, freq: int)
    requires
        0 <= us,
    ensures
        0 <= us_to_ticks(us, freq),
{
    if freq > 0 {
        assert(0 <= us * freq) by (nonlinear_arith)
            requires
                0 <= us,
                0 < freq,
        ;
        lemma_round_of_positive(us * freq, SECOND_US as int);
    }
}

fn max_i64(a: i64, b: i64) -> (r: i64)
    ensures
        r == later_of(a as int, b as int),
{
    if a >= b { a } else { b }
}

impl PacerConfig {
    fn frame_interval_us(&self) -> (us: i64)
        ensures
            us == self.interval_us(),
            0 <= us <= 10_000_000_000_000,
    {
        let rate: i64 = max_i64(self.target_fps, FPS_FLOOR);
        let q: i64 = interval_of_rate(rate);
        proof {
            lemma_interval_bound(rate as int);
        }
        q
    }
}

proof fn lemma_interval_bound(rate: int)
    requires
        rate >= FPS_FLOOR,
    ensures
        0 <= fixed::round_quot(SECOND_US * ONE, rate) <= 10_000_000_000_000,
{
    let a = SECOND_US * ONE;
    vstd::arithmetic::div_mod::lemma_fundamental_div_mod(2 * a + rate, 2 * rate);
    vstd::arithmetic::div_mod::lemma_mod_bound(2 * a + rate, 2 * rate);
    let q = (2 * a + rate) / (2 * rate);
    let r = (2 * a + rate) % (2 * rate);
    assert(0 <= q <= 10_000_000_000_000) by (nonlinear_arith)
        requires
            2 * 1_000_000_000_000_000_000 + rate == (2 * rate) * q + r,
            0 <= r < 2 * rate,
            rate >= 100_000,
    ;
}

impl VBlankHint {
    fn working_rate(&self) -> (hz: i64)
        ensures
            hz == self.rate(),
            hz > 0,
    {
        if self.refresh_hz > 1_000_000 { self.refresh_hz } else { DEFAULT_REFRESH_HZ }
    }

    fn refresh_ticks(&self, freq: i64) -> (t: i64)
        ensures
            t == self.refresh_qpc(freq as int),
            t >= 0,
    {
        let us: i64 = interval_of_rate(self.working_rate());
        proof {
            lemma_ticks_of_positive(us as int, freq as int);
        }
        us_to_qpc(us, freq)
    }
}

impl JitPacer {
    #[verifier::type_invariant]
    spec fn wf(self) -> bool {
        &&& self.freq >= 1
        &&& 0 <= self.carry.num < self.carry.den <= 0x8000_0000_0000_0000
    }

    /// A pacer without history; a frequency below one tick per second is taken for
    /// one.
    pub fn new(cfg: PacerConfig, qpc_frequency: i64) -> (pacer: JitPacer)
        ensures
            pacer@ == PacerModel::fresh(cfg, qpc_frequency as int),
    {
        JitPacer {
            freq: max_i64(qpc_frequency, 1),
            cfg,
            ema_us: 0,
            dev_us: 0,
            last_release_qpc: 0,
            last_target_qpc: 0,
            last_target_index: 0,
            hint_index: 0,
            hint_qpc: 0,
            carry: Carry { num: 0, den: 1, endless: false },
            frames: 0,
        }
    }

    pub fn config(&self) -> (cfg: &PacerConfig)
        ensures
            *cfg == self@.cfg,
    {
        &self.cfg
    }

    pub fn set_config(&mut self, cfg: PacerConfig)
        ensures
            final(self)@ == (PacerModel { cfg, ..old(self)@ }),
    {
        proof {
            use_type_invariant(&*self);
        }
        self.cfg = cfg;
    }

    pub fn frames_seen(&self) -> (n: u64)
        ensures
            n == self@.frames,
    {
        self.frames
    }

    /// Reports the reading at which the next frame actually started.
    pub fn mark_released(&mut self, release_qpc: i64)
        ensures
            final(self)@ == (PacerModel { last_release: release_qpc as int, ..old(self)@ }),
    {
        proof {
            use_type_invariant(&*self);
        }
        self.last_release_qpc = release_qpc;
    }
}

proof fn lemma_scaled(a: int, b: int)
    requires
        i32::MIN <= a <= i32::MAX,
        -0x1_0000_0000_0000_0000 <= b <= 0x1_0000_0000_0000_0000,
    ensures
        -0x8000_0000_0000_0000_0000_0000 <= a * b <= 0x8000_0000_0000_0000_0000_0000,
{
    assert(-0x8000_0000_0000_0000_0000_0000 <= a * b <= 0x8000_0000_0000_0000_0000_0000)
        by (nonlinear_arith)
        requires
            -0x8000_0000 <= a <= 0x8000_0000,
            -0x1_0000_0000_0000_0000 <= b <= 0x1_0000_0000_0000_0000,
    ;
}

/// `round_quot` by one million stays within the magnitude of its dividend.
proof fn lemma_round_by_one(a: int)
    ensures
        a >= 0 ==> 0 <= fixed::round_quot(a, ONE as int) <= a,
        a < 0 ==> a <= fixed::round_quot(a, ONE as int) <= 0,
{
    if a >= 0 {
        lemma_round_of_positive(a, ONE as int);
    } else {
        lemma_round_of_positive(-a, ONE as int);
    }
}

impl JitPacer {
    fn estimate(&self, end: i64) -> (est: FrameEstimate)
        ensures
            est@ == self@.estimate(end as int),
    {
        proof {
            use_type_invariant(&*self);
        }
        let d_us: i128 = wide_qpc_to_us(end as i128 - self.last_release_qpc as i128, self.freq);
        let interval_us: i64 = self.cfg.frame_interval_us();
        let floor: i128 = MIN_FRAME_US * ONE;
        let stall: i128 = STALL_INTERVALS * interval_us as i128;
        let ceiling: i128 = if floor >= stall { floor } else { stall };
        let sample: i128 = if d_us < floor {
            floor
        } else if d_us > ceiling {
            ceiling
        } else {
            d_us
        };
        let delta: i128 = sample - self.ema_us as i128;
        let spread: i128 = if delta < 0 { -delta } else { delta };
        let alpha: i128 = self.cfg.ema_alpha as i128;
        let beta: i128 = self.cfg.deviation_beta as i128;
        proof {
            lemma_scaled(alpha as int, delta as int);
            lemma_round_by_one(alpha * delta);
            lemma_scaled(beta as int, self.dev_us as int);
            lemma_scaled(beta as int, spread as int);
            assert((ONE - beta) * self.dev_us == ONE * self.dev_us - beta * self.dev_us)
                by (nonlinear_arith);
        }
        let ema_us: i64 = if self.frames == 1 {
            sample as i64
        } else {
            clamp_i64(self.ema_us as i128 + round_div(alpha * delta, ONE))
        };
        let dev_us: i64 = if self.frames == 1 {
            0
        } else {
            clamp_i64(round_div((ONE - beta) * self.dev_us as i128 + beta * spread, ONE))
        };
        let factor: i128 = self.cfg.variance_multiplier as i128;
        proof {
            lemma_scaled(factor as int, dev_us as int);
            lemma_round_by_one(factor * dev_us);
        }
        let margin_us: i64 = clamp_i64(
            self.cfg.base_safety_margin_us as i128 + round_div(factor * dev_us as i128, ONE),
        );
        let lead_us: i64 = clamp_i64(ema_us as i128 + margin_us as i128);
        FrameEstimate {
            ema_us,
            dev_us,
            margin_us,
            lead_qpc: us_to_qpc(lead_us, self.freq),
            overloaded: d_us >= interval_us as i128 - self.cfg.base_safety_margin_us as i128,
        }
    }

    fn wake_for(est: &FrameEstimate, target: i64, end: i64) -> (wake: i64)
        ensures
            wake == PacerModel::wake_for(est@, target as int, end as int),
    {
        if est.overloaded {
            end
        } else {
            max_i64(clamp_i64(target as i128 - est.lead_qpc as i128), end)
        }
    }

    fn slot_plan(&self, est: &FrameEstimate, end: i64, resync: bool) -> (plan: FramePlan)
        ensures
            plan@ == self@.slot_plan(est@, end as int, resync),
    {
        proof {
            use_type_invariant(&*self);
        }
        let interval: i128 = us_to_qpc(self.cfg.frame_interval_us(), self.freq) as i128;
        let next: i128 = self.last_target_qpc as i128 + interval;
        let earliest: i128 = end as i128 + est.lead_qpc as i128;
        let slot: i128 = if next >= earliest {
            next
        } else if interval <= 0 {
            earliest
        } else {
            let skipped: i128 = ceil_div(earliest - next, interval);
            proof {
                lemma_first_slot(next as int, interval as int, earliest as int);
            }
            next + skipped * interval
        };
        proof {
            if interval > 0 {
                lemma_first_slot(next as int, interval as int, earliest as int);
            }
        }
        let target: i64 = clamp_i64(
            if resync && est.overloaded {
                end as i128 + interval
            } else {
                slot
            },
        );
        FramePlan {
            wake_qpc: JitPacer::wake_for(est, target, end),
            target_qpc: target,
            step: 1,
            late: slot > next,
        }
    }
}

/// The first slot is a slot, is not before `earliest`, and no slot before it is
/// late enough.
pub proof fn lemma_first_slot(slot: int, interval: int, earliest: int)
    requires
        interval > 0,
    ensures
        first_slot(slot, interval, earliest) >= earliest,
        first_slot(slot, interval, earliest) >= slot,
        (first_slot(slot, interval, earliest) - slot) % interval == 0,
        first_slot(slot, interval, earliest) == slot || first_slot(slot, interval, earliest)
            - interval < earliest,
        slot < earliest ==> 0 < fixed::ceil_quot(earliest - slot, interval) <= earliest - slot,
        slot < earliest ==> 0 < fixed::ceil_quot(earliest - slot, interval) * interval < earliest
            - slot + interval,
{
    if slot < earliest {
        let a = earliest - slot;
        vstd::arithmetic::div_mod::lemma_fundamental_div_mod(-a, interval);
        vstd::arithmetic::div_mod::lemma_mod_bound(-a, interval);
        let q = (-a) / interval;
        let r = (-a) % interval;
        let k = -q;
        assert(0 < k <= a && 0 < k * interval < a + interval && k * interval >= a)
            by (nonlinear_arith)
            requires
                -a == interval * q + r,
                0 <= r < interval,
                a > 0,
                k == -q,
        ;
        vstd::arithmetic::div_mod::lemma_mod_multiples_basic(k, interval);
    } else {
        vstd::arithmetic::div_mod::lemma_small_mod(0, interval as nat);
    }
}

proof fn lemma_carry(num: int, den: int, rate: int, refresh: int)
    requires
        0 <= num < den <= 0x8000_0000_0000_0000,
        0 < rate <= 0x8000_0000_0000_0000,
        0 < refresh <= i64::MAX,
    ensures
        0 <= num * rate <= 0x4000_0000_0000_0000_0000_0000_0000_0000,
        0 <= (num * rate) / den < rate,
        forall|c: int|
            0 <= c < rate <= refresh ==> {
                &&& 1 <= #[trigger] ((c + refresh) / rate) <= c + refresh
                &&& 0 <= (c + refresh) % rate < rate
            },
{
    assert(0 <= num * rate <= 0x8000_0000_0000_0000 * 0x8000_0000_0000_0000 && num * rate < den
        * rate) by (nonlinear_arith)
        requires
            0 <= num < den <= 0x8000_0000_0000_0000,
            0 < rate <= 0x8000_0000_0000_0000,
    ;
    vstd::arithmetic::div_mod::lemma_multiply_divide_lt(num * rate, den, rate);
    vstd::arithmetic::div_mod::lemma_div_pos_is_pos(num * rate, den);
    assert forall|c: int| 0 <= c < rate <= refresh implies 1 <= #[trigger] ((c + refresh) / rate) <= c + refresh
        && 0 <= (c + refresh) % rate < rate by {
        vstd::arithmetic::div_mod::lemma_div_is_ordered(rate, c + refresh, rate);
        vstd::arithmetic::div_mod::lemma_div_by_self(rate);
        vstd::arithmetic::div_mod::lemma_div_nonincreasing(c + refresh, rate);
        vstd::arithmetic::div_mod::lemma_mod_bound(c + refresh, rate);
    }
}

/// The fraction that a walk backwards leaves.
proof fn lemma_walk_back(carried: int, refresh: int, rate: int)
    requires
        0 <= carried < rate,
        0 < refresh,
    ensures
        0 <= refresh % rate < rate,
        (carried - refresh) % rate == if carried >= refresh % rate {
            carried - refresh % rate
        } else {
            carried - refresh % rate + rate
        },
{
    let q = refresh / rate;
    let back = refresh % rate;
    vstd::arithmetic::div_mod::lemma_fundamental_div_mod(refresh, rate);
    vstd::arithmetic::div_mod::lemma_mod_bound(refresh, rate);
    assert(carried - refresh == (-q) * rate + (carried - back) && carried - refresh == (-q - 1)
        * rate + (carried - back + rate)) by (nonlinear_arith)
        requires
            refresh == rate * q + back,
    ;
    if carried >= back {
        vstd::arithmetic::div_mod::lemma_fundamental_div_mod_converse(
            carried - refresh,
            rate,
            -q,
            carried - back,
        );
    } else {
        vstd::arithmetic::div_mod::lemma_fundamental_div_mod_converse(
            carried - refresh,
            rate,
            -q - 1,
            carried - back + rate,
        );
    }
}

proof fn lemma_ceil_within(a: int, b: int)
    requires
        b > 0,
    ensures
        a >= 0 ==> 0 <= fixed::ceil_quot(a, b) <= a,
        a < 0 ==> a <= fixed::ceil_quot(a, b) <= 0,
{
    vstd::arithmetic::div_mod::lemma_fundamental_div_mod(-a, b);
    vstd::arithmetic::div_mod::lemma_mod_bound(-a, b);
    let q = (-a) / b;
    let r = (-a) % b;
    assert((a >= 0 ==> 0 <= -q <= a) && (a < 0 ==> a <= -q <= 0)) by (nonlinear_arith)
        requires
            -a == b * q + r,
            0 <= r < b,
            b > 0,
    ;
}

/// What pacing on the vblank grid leaves behind.
struct GridPlan {
    plan: FramePlan,
    hint_index: i64,
    carry: Carry,
}

/// [`beyond`] of a span.
fn past_counting(span: i128) -> (n: i128)
    ensures
        n == beyond(span as int),
{
    if span > 0 {
        0x7fff_ffff_ffff_ffff
    } else if span < 0 {
        -0x8000_0000_0000_0000
    } else {
        0
    }
}

impl JitPacer {
    fn index_of_hint(&self, hint: &VBlankHint) -> (index: i64)
        ensures
            index == self@.index_of_hint(*hint),
    {
        proof {
            use_type_invariant(&*self);
        }
        if self.frames > 1 && self.hint_qpc != 0 {
            let refresh: i64 = hint.refresh_ticks(self.freq);
            let moved: i128 = hint.last_vblank_qpc as i128 - self.hint_qpc as i128;
            let elapsed: i128 = if refresh > 0 {
                proof {
                    lemma_round_of_positive(
                        if moved >= 0 { moved as int } else { -(moved as int) },
                        refresh as int,
                    );
                }
                round_div(moved, refresh as i128)
            } else {
                past_counting(moved)
            };
            clamp_i64(self.hint_index as i128 + if elapsed >= 0 { elapsed } else { 0 })
        } else {
            self.hint_index
        }
    }

    /// Vblanks that the cadence advances, and the fraction that it then carries over.
    fn walk(&self, refresh_hz: i64, hint: &VBlankHint) -> (w: (i128, Carry))
        requires
            !self@.walks_on(),
            refresh_hz == hint.rate(),
        ensures
            w.0 == self@.cadence_vblanks(*hint),
            1 <= w.0 <= 0x2_0000_0000_0000_0000,
            !w.1.endless,
            w.1.den == self@.cadence_rate(*hint),
            w.1.num == self@.walked(*hint) % (w.1.den as int),
            0 <= w.1.num < w.1.den <= 0x8000_0000_0000_0000,
    {
        proof {
            use_type_invariant(&*self);
        }
        let backwards: bool = self.cfg.target_fps < 0;
        let rate: i128 = if backwards {
            -(self.cfg.target_fps as i128)
        } else if self.cfg.target_fps < refresh_hz {
            self.cfg.target_fps as i128
        } else {
            refresh_hz as i128
        };
        proof {
            lemma_carry(
                self.carry.num as int,
                self.carry.den as int,
                rate as int,
                refresh_hz as int,
            );
        }
        let carried: i128 = if self.carry.den == rate {
            self.carry.num as i128
        } else {
            (self.carry.num as i128 * rate) / self.carry.den
        };
        if backwards {
            let back: i128 = refresh_hz as i128 % rate;
            proof {
                lemma_walk_back(carried as int, refresh_hz as int, rate as int);
            }
            let num: i128 =
                if carried >= back { carried - back } else { carried - back + rate };
            (1, Carry { num: num as i64, den: rate, endless: false })
        } else {
            let walked: i128 = carried + refresh_hz as i128;
            let carry = Carry { num: (walked % rate) as i64, den: rate, endless: false };
            (walked / rate, carry)
        }
    }

    fn vblank_plan(&self, est: &FrameEstimate, end: i64, hint: &VBlankHint) -> (grid: GridPlan)
        ensures
            grid.plan@ == self@.vblank_plan(est@, end as int, *hint),
            grid.hint_index == self@.index_of_hint(*hint),
            0 <= grid.carry.num < grid.carry.den <= 0x8000_0000_0000_0000,
            self@.walks_on() ==> grid.carry.endless && grid.carry.num == self@.acc_num
                && grid.carry.den == self@.acc_den,
            !self@.walks_on() ==> !grid.carry.endless && grid.carry.den == self@.cadence_rate(*hint)
                && grid.carry.num == self@.walked(*hint) % (grid.carry.den as int),
    {
        proof {
            use_type_invariant(&*self);
        }
        let refresh_hz: i64 = hint.working_rate();
        let refresh: i64 = hint.refresh_ticks(self.freq);
        let here: i64 = self.index_of_hint(hint);

        let (vblanks, carry): (i128, Carry) = if self.carry.endless || self.cfg.target_fps == 0 {
            (
                0x7fff_ffff_ffff_ffff,
                Carry { num: self.carry.num, den: self.carry.den, endless: true },
            )
        } else {
            self.walk(refresh_hz, hint)
        };

        let candidate: i128 = self.last_target_index as i128 + vblanks;
        let until_feasible: i128 = end as i128 + est.lead_qpc as i128 - hint.last_vblank_qpc as i128;
        proof {
            if refresh > 0 {
                lemma_ceil_within(until_feasible as int, refresh as int);
            }
        }
        let feasible: i128 = here as i128 + if refresh > 0 {
            ceil_div(until_feasible, refresh as i128)
        } else {
            past_counting(until_feasible)
        };
        let late: bool = candidate < feasible;
        let index: i128 = if est.overloaded || late { feasible } else { candidate };
        let ahead: i64 = clamp_i64(index - here as i128);
        proof {
            lemma_product_of_words(ahead as int, refresh as int);
        }
        let target: i64 = clamp_i64(
            hint.last_vblank_qpc as i128 + ahead as i128 * refresh as i128,
        );
        GridPlan {
            plan: FramePlan {
                wake_qpc: JitPacer::wake_for(est, target, end),
                target_qpc: target,
                step: clamp_i64(index - self.last_target_index as i128),
                late,
            },
            hint_index: here,
            carry,
        }
    }

    fn count_frame(&mut self)
        ensures
            final(self)@ == (PacerModel { frames: old(self)@.next_frames(), ..old(self)@ }),
    {
        proof {
            use_type_invariant(&*self);
        }
        if self.frames < u64::MAX {
            self.frames = self.frames + 1;
        }
    }

    fn immediate_release(end: i64) -> (d: PacerDecision)
        ensures
            d.wake_qpc == end,
            d.target_tick_qpc == end,
            d.cadence_step == 0,
            d.stats == (PacerStats {
                frame_duration_us: 0,
                ema_duration_us: 0,
                deviation_us: 0,
                safety_margin_us: 0,
                sleep_us: 0,
                bypass: true,
                late: false,
            }),
    {
        PacerDecision {
            wake_qpc: end,
            target_tick_qpc: end,
            cadence_step: 0,
            stats: PacerStats {
                frame_duration_us: 0,
                ema_duration_us: 0,
                deviation_us: 0,
                safety_margin_us: 0,
                sleep_us: 0,
                bypass: true,
                late: false,
            },
        }
    }

    /// Called when the real present call has returned.
    ///
    /// * `present_start_qpc`: when the game entered the call. The cost of a frame is
    ///   measured from its release, so this instant does not enter the decision.
    /// * `present_end_qpc`: when the call returned and the frame was queued.
    /// * `hint`: display tick information, where there is any.
    ///
    /// The decision delays the start of the next frame, never the frame that just
    /// finished.
    pub fn on_present_complete(
        &mut self,
        present_start_qpc: i64,
        present_end_qpc: i64,
        hint: Option<VBlankHint>,
    ) -> (decision: PacerDecision)
        ensures
            final(self)@ == old(self)@.after(present_end_qpc as int, hint),
            old(self)@.decides(present_end_qpc as int, hint, decision),
            decision.wake_qpc >= present_end_qpc,
    {
        proof {
            use_type_invariant(&*self);
        }
        let end: i64 = present_end_qpc;
        if self.last_release_qpc == 0 {
            self.last_release_qpc = end;
            self.last_target_qpc = end;
            match hint {
                Some(h) => {
                    self.hint_qpc = h.last_vblank_qpc;
                },
                None => {},
            }
            self.count_frame();
            return JitPacer::immediate_release(end);
        }
        let elapsed: i128 = end as i128 - self.last_release_qpc as i128;
        if elapsed * 1_000_000 < MIN_FRAME_US * self.freq as i128 {
            self.count_frame();
            return JitPacer::immediate_release(end);
        }
        let d_us: i128 = wide_qpc_to_us(elapsed, self.freq);
        let est = self.estimate(end);
        let plan = match self.cfg.mode {
            PacerMode::Bypass => FramePlan { wake_qpc: end, target_qpc: end, step: 0, late: false },
            PacerMode::Vrr => self.slot_plan(&est, end, true),
            PacerMode::FixedVsync => match hint {
                None => self.slot_plan(&est, end, false),
                Some(h) => {
                    let grid = self.vblank_plan(&est, end, &h);
                    self.hint_index = grid.hint_index;
                    self.hint_qpc = h.last_vblank_qpc;
                    self.carry = grid.carry;
                    grid.plan
                },
            },
        };
        self.ema_us = est.ema_us;
        self.dev_us = est.dev_us;
        self.last_target_qpc = plan.target_qpc;
        match self.cfg.mode {
            PacerMode::FixedVsync => {
                self.last_target_index = clamp_i64(
                    self.last_target_index as i128 + plan.step as i128,
                );
            },
            _ => {},
        }
        self.count_frame();
        PacerDecision {
            wake_qpc: plan.wake_qpc,
            target_tick_qpc: plan.target_qpc,
            cadence_step: plan.step,
            stats: PacerStats {
                frame_duration_us: d_us,
                ema_duration_us: est.ema_us,
                deviation_us: est.dev_us,
                safety_margin_us: est.margin_us,
                sleep_us: wide_qpc_to_us(plan.wake_qpc as i128 - end as i128, self.freq),
                bypass: plan.wake_qpc == end,
                late: plan.late,
            },
        }
    }
}

} // verus!
