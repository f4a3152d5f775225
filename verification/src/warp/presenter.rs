//! The presenter: for each captured frame of the game it shows the frames that are worked
//! out in between, and then the frame itself.

use vstd::prelude::*;

use crate::fixed;
use crate::fixed::{clamp_i64, round_div, ONE};
use crate::warp::engine;
use crate::warp::engine::{instant_rate, pause, smooth};
use crate::warp::math;
use crate::warp::math::as_word;

verus! {

/// The least side of the overlay.
pub const LEAST_SIDE: u32 = 100;

/// The frame time that is shown before one was measured, fixed-point milliseconds.
pub const USUAL_FRAME_MS: i64 = 16_600_000;

/// What the presenter reports. Rates are fixed-point (see [`crate::fixed`]).
#[derive(Debug, Clone, Copy, PartialEq, Eq, Structural)]
pub struct PresenterTelemetry {
    pub is_running: bool,
    pub game_fps: i64,
    pub output_fps: i64,
    pub frames_captured: u64,
    pub frames_presented: u64,
}

impl PresenterTelemetry {
    pub open spec fn idle() -> PresenterTelemetry {
        PresenterTelemetry {
            is_running: false,
            game_fps: 0,
            output_fps: 0,
            frames_captured: 0,
            frames_presented: 0,
        }
    }

    pub fn new() -> (t: PresenterTelemetry)
        ensures
            t == PresenterTelemetry::idle(),
    {
        PresenterTelemetry {
            is_running: false,
            game_fps: 0,
            output_fps: 0,
            frames_captured: 0,
            frames_presented: 0,
        }
    }
}

/// The side of the overlay for a side of the game's window.
pub open spec fn overlay_side(from: i32, to: i32) -> int {
    if to - from < LEAST_SIDE {
        LEAST_SIDE as int
    } else {
        to - from
    }
}

/// The side of the overlay for a side of the game's window.
pub fn client_side(from: i32, to: i32) -> (side: u32)
    ensures
        side == overlay_side(from, to),
{
    let d: i64 = to as i64 - from as i64;
    if d < 100 {
        LEAST_SIDE
    } else {
        d as u32
    }
}

/// What is done with a captured frame.
#[derive(Debug, Clone, Copy, PartialEq, Eq, Structural)]
pub struct Captured {
    /// The picture has another size: textures and buffers are made anew.
    pub resize: bool,
    /// There is a frame before it to work with.
    pub generate: bool,
    /// Time since the last captured frame, at least a millisecond.
    pub dt_ns: u64,
}

/// The presenter's loop between its calls to the display. The rates are those of this
/// run; what is reported stands until the run has figures of its own.
#[derive(Debug, Clone, Copy, PartialEq, Eq, Structural)]
pub struct Presenter {
    pub width: u32,
    pub height: u32,
    pub has_first_frame: bool,
    pub show_hud: bool,
    pub hud_key_down: bool,
    pub last_capture_ns: u64,
    pub last_present_ns: u64,
    pub game_fps: i64,
    pub output_fps: i64,
    pub telemetry: PresenterTelemetry,
}

/// Time from `last` to `now`, none where the clock went back, but at least a millisecond.
pub open spec fn gap(last: u64, now: u64) -> u64 {
    if now - last < engine::SHORTEST_FRAME_NS {
        engine::SHORTEST_FRAME_NS
    } else {
        (now - last) as u64
    }
}

fn gap_ns(last: u64, now: u64) -> (ns: u64)
    ensures
        ns == gap(last, now),
        ns >= engine::SHORTEST_FRAME_NS,
{
    if now < last || now - last < engine::SHORTEST_FRAME_NS {
        engine::SHORTEST_FRAME_NS
    } else {
        now - last
    }
}

impl Presenter {
    /// A run that starts with a window of the given size, after what was reported so far.
    pub open spec fn started(
        reported: PresenterTelemetry,
        width: u32,
        height: u32,
        now_ns: u64,
    ) -> Presenter {
        Presenter {
            width,
            height,
            has_first_frame: false,
            show_hud: false,
            hud_key_down: false,
            last_capture_ns: now_ns,
            last_present_ns: now_ns,
            game_fps: 0,
            output_fps: 0,
            telemetry: PresenterTelemetry { is_running: true, ..reported },
        }
    }

    /// Starts with a window of the given size.
    pub fn start(width: u32, height: u32, now_ns: u64) -> (p: Presenter)
        ensures
            p == Presenter::started(PresenterTelemetry::idle(), width, height, now_ns),
    {
        Presenter::restart(PresenterTelemetry::new(), width, height, now_ns)
    }

    /// Starts again after earlier runs: what they reported is kept and counted on.
    pub fn restart(reported: PresenterTelemetry, width: u32, height: u32, now_ns: u64) -> (p:
        Presenter)
        ensures
            p == Presenter::started(reported, width, height, now_ns),
    {
        Presenter {
            width,
            height,
            has_first_frame: false,
            show_hud: false,
            hud_key_down: false,
            last_capture_ns: now_ns,
            last_present_ns: now_ns,
            game_fps: 0,
            output_fps: 0,
            telemetry: PresenterTelemetry {
                is_running: true,
                game_fps: reported.game_fps,
                output_fps: reported.output_fps,
                frames_captured: reported.frames_captured,
                frames_presented: reported.frames_presented,
            },
        }
    }

    /// The key for the figures is down or not; going down turns them on or off.
    pub fn hud_key(&mut self, down: bool)
        ensures
            *final(self) == (Presenter {
                show_hud: if down && !old(self).hud_key_down {
                    !old(self).show_hud
                } else {
                    old(self).show_hud
                },
                hud_key_down: down,
                ..*old(self)
            }),
    {
        if down && !self.hud_key_down {
            self.show_hud = !self.show_hud;
        }
        self.hud_key_down = down;
    }

    /// The state after a frame was captured.
    pub open spec fn after_capture(self, width: u32, height: u32, now: u64) -> Presenter {
        let game_fps = engine::smoothed(
            self.game_fps as int,
            engine::rate_of(gap(self.last_capture_ns, now) as int),
            18,
        ) as i64;
        Presenter {
            width,
            height,
            has_first_frame: true,
            last_capture_ns: now,
            game_fps,
            telemetry: PresenterTelemetry {
                game_fps,
                frames_captured: engine::counted_on(self.telemetry.frames_captured, 1),
                ..self.telemetry
            },
            ..self
        }
    }

    /// Takes a captured frame.
    pub fn captured(&mut self, width: u32, height: u32, now_ns: u64) -> (c: Captured)
        ensures
            *final(self) == old(self).after_capture(width, height, now_ns),
            c.resize == (width != old(self).width || height != old(self).height),
            c.generate == old(self).has_first_frame,
            c.dt_ns == gap(old(self).last_capture_ns, now_ns),
    {
        let resize = width != self.width || height != self.height;
        let generate = self.has_first_frame;
        let dt_ns: u64 = gap_ns(self.last_capture_ns, now_ns);
        self.width = width;
        self.height = height;
        self.last_capture_ns = now_ns;
        self.game_fps = smooth(self.game_fps, instant_rate(dt_ns), 18);
        self.telemetry.game_fps = self.game_fps;
        self.telemetry.frames_captured = self.telemetry.frames_captured.wrapping_add(1);
        self.has_first_frame = true;
        Captured { resize, generate, dt_ns }
    }

    /// The state after a frame was shown.
    pub open spec fn after_present(self, now: u64) -> Presenter {
        let output_fps = engine::smoothed(
            self.output_fps as int,
            engine::rate_of(gap(self.last_present_ns, now) as int),
            19,
        ) as i64;
        Presenter {
            last_present_ns: now,
            output_fps,
            telemetry: PresenterTelemetry {
                output_fps,
                frames_presented: engine::counted_on(self.telemetry.frames_presented, 1),
                ..self.telemetry
            },
            ..self
        }
    }

    /// A frame was shown.
    pub fn presented(&mut self, now_ns: u64)
        ensures
            *final(self) == old(self).after_present(now_ns),
    {
        let dt_ns: u64 = gap_ns(self.last_present_ns, now_ns);
        self.last_present_ns = now_ns;
        self.output_fps = smooth(self.output_fps, instant_rate(dt_ns), 19);
        self.telemetry.output_fps = self.output_fps;
        self.telemetry.frames_presented = self.telemetry.frames_presented.wrapping_add(1);
    }

    /// The frame time that the figures show, fixed-point milliseconds.
    pub open spec fn shown_frame_time(self) -> int {
        if self.output_fps > 0 {
            fixed::sat64(fixed::round_quot(1_000_000_000_000_000, self.output_fps as int))
        } else {
            USUAL_FRAME_MS as int
        }
    }

    /// The frame time that the figures show, fixed-point milliseconds.
    pub fn frame_time_ms(&self) -> (ms: i64)
        ensures
            ms == self.shown_frame_time(),
    {
        if self.output_fps > 0 {
            clamp_i64(round_div(1_000_000_000_000_000, self.output_fps as i128))
        } else {
            USUAL_FRAME_MS
        }
    }

    /// The presenter stopped. When the result is true it was running, and the caller says
    /// so.
    pub fn stop(&mut self) -> (was_running: bool)
        ensures
            was_running == old(self).telemetry.is_running,
            *final(self) == (Presenter {
                telemetry: PresenterTelemetry { is_running: false, ..old(self).telemetry },
                ..*old(self)
            }),
    {
        let was_running = self.telemetry.is_running;
        self.telemetry.is_running = false;
        was_running
    }
}

/// How far a picture element has to move to count as moved, fixed-point pixels.
pub const MOTION_THRESHOLD: i64 = 1_200_000;

/// How sure the search for fixed figures has to be, fixed-point.
pub const HUD_CONFIDENCE: i64 = 800_000;

/// What the search for motion is told.
#[derive(Debug, Clone, Copy, PartialEq, Eq, Structural)]
pub struct FlowConstants {
    pub width: u32,
    pub height: u32,
    pub motion_threshold: i64,
    pub hud_confidence: i64,
}

/// What the making of a frame in between is told.
#[derive(Debug, Clone, Copy, PartialEq, Eq, Structural)]
pub struct SynthConstants {
    pub width: u32,
    pub height: u32,
    pub alpha: i64,
    pub fps_multiplier: u32,
    pub debug_flow: u32,
    pub sharpening: i64,
    pub elapsed_ns: u64,
    pub show_perf_hud: u32,
    pub game_fps: i64,
    pub output_fps: i64,
    pub frametime_ms: i64,
}

impl Presenter {
    /// What the search for motion between the last two captured frames is told.
    pub fn flow_constants(&self) -> (c: FlowConstants)
        ensures
            c == (FlowConstants {
                width: self.width,
                height: self.height,
                motion_threshold: MOTION_THRESHOLD,
                hud_confidence: HUD_CONFIDENCE,
            }),
    {
        FlowConstants {
            width: self.width,
            height: self.height,
            motion_threshold: MOTION_THRESHOLD,
            hud_confidence: HUD_CONFIDENCE,
        }
    }

    /// What the making of a frame at `alpha` between the last two captured frames is told.
    /// Sharpening is brought into the range from nothing to one.
    pub fn synth_constants(
        &self,
        alpha: i64,
        fps_multiplier: u32,
        debug_flow: bool,
        sharpening: i64,
        elapsed_ns: u64,
    ) -> (c: SynthConstants)
        ensures
            c == (SynthConstants {
                width: self.width,
                height: self.height,
                alpha,
                fps_multiplier,
                debug_flow: math::word(debug_flow),
                sharpening: fixed::within(sharpening as int, 0, ONE as int) as i64,
                elapsed_ns,
                show_perf_hud: math::word(self.show_hud),
                game_fps: self.game_fps,
                output_fps: self.output_fps,
                frametime_ms: self.shown_frame_time() as i64,
            }),
    {
        SynthConstants {
            width: self.width,
            height: self.height,
            alpha,
            fps_multiplier,
            debug_flow: as_word(debug_flow),
            sharpening: if sharpening < 0 {
                0
            } else if sharpening > 1_000_000 {
                1_000_000
            } else {
                sharpening
            },
            elapsed_ns,
            show_perf_hud: as_word(self.show_hud),
            game_fps: self.game_fps,
            output_fps: self.output_fps,
            frametime_ms: self.frame_time_ms(),
        }
    }
}

/// One of the frames that are shown for a captured frame.
#[derive(Debug, Clone, Copy, PartialEq, Eq, Structural)]
pub struct Step {
    /// Where between the last two captured frames it lies, fixed-point.
    pub alpha: i64,
    /// It is the captured frame itself.
    pub pristine: bool,
    /// Pause after it.
    pub pause_ns: u64,
}

/// The frames for a captured frame: as many as the multiplier says, evenly spread.
pub open spec fn step_of(step: int, mult: int, dt: int) -> Step {
    Step {
        alpha: fixed::round_quot(step * ONE, mult) as i64,
        pristine: step == mult,
        pause_ns: if step < mult {
            engine::pause_of(dt, mult) as u64
        } else {
            0
        },
    }
}

/// How many frames are shown for a captured frame.
pub open spec fn steps_for(multiplier: u32) -> int {
    if multiplier >= 1 {
        multiplier as int
    } else {
        1
    }
}

/// How many frames are shown for a captured frame.
pub fn step_count(multiplier: u32) -> (n: u32)
    ensures
        n == steps_for(multiplier),
{
    if multiplier >= 1 {
        multiplier
    } else {
        1
    }
}

/// The `step`-th of `count` frames for a captured frame that came `dt_ns` after the last.
pub fn plan_step(step: u32, count: u32, dt_ns: u64) -> (s: Step)
    requires
        1 <= step <= count,
    ensures
        s == step_of(step as int, count as int, dt_ns as int),
{
    proof {
        law_steps_lead_to_the_frame(step as int, count as int, dt_ns as int);
    }
    let alpha: i128 = round_div(step as i128 * ONE, count as i128);
    Step {
        alpha: alpha as i64,
        pristine: step == count,
        pause_ns: if step < count {
            pause(dt_ns, count)
        } else {
            0
        },
    }
}

/// Each frame lies at or before the captured one, and the last of them is that frame,
/// shown as it is and without a pause after it.
pub proof fn law_steps_lead_to_the_frame(step: int, mult: int, dt: int)
    requires
        1 <= step <= mult <= u32::MAX,
    ensures
        0 <= fixed::round_quot(step * ONE, mult) <= 1_000_000,
        step_of(mult, mult, dt).alpha == 1_000_000,
        step_of(mult, mult, dt).pristine,
        step_of(mult, mult, dt).pause_ns == 0,
        step < mult ==> !step_of(step, mult, dt).pristine,
{
    let n = 2 * (step * 1_000_000) + mult;
    vstd::arithmetic::div_mod::lemma_fundamental_div_mod(n, 2 * mult);
    vstd::arithmetic::div_mod::lemma_mod_bound(n, 2 * mult);
    let q = n / (2 * mult);
    assert(0 <= q <= 1_000_000) by (nonlinear_arith)
        requires
            2 * mult * q <= n,
            n < 2 * mult * q + 2 * mult,
            n == 2 * (step * 1_000_000) + mult,
            1 <= step <= mult,
    ;
    let full = 2 * (mult * 1_000_000) + mult;
    vstd::arithmetic::div_mod::lemma_fundamental_div_mod(full, 2 * mult);
    vstd::arithmetic::div_mod::lemma_mod_bound(full, 2 * mult);
    let f = full / (2 * mult);
    assert(f == 1_000_000) by (nonlinear_arith)
        requires
            2 * mult * f <= full,
            full < 2 * mult * f + 2 * mult,
            full == 2 * (mult * 1_000_000) + mult,
            1 <= mult,
    ;
}

/// Frames in between come in their order.
pub proof fn law_steps_are_in_order(a: int, b: int, mult: int, dt: int)
    requires
        1 <= a <= b <= mult <= u32::MAX,
    ensures
        step_of(a, mult, dt).alpha <= step_of(b, mult, dt).alpha,
{
    law_steps_lead_to_the_frame(a, mult, dt);
    law_steps_lead_to_the_frame(b, mult, dt);
    vstd::arithmetic::div_mod::lemma_div_is_ordered(
        2 * (a * 1_000_000) + mult,
        2 * (b * 1_000_000) + mult,
        2 * mult,
    );
}

/// A round of the loop in which a frame was captured: the frame's size, the instant at
/// which it came, and those at which the frames for it are shown.
pub struct Round {
    pub width: u32,
    pub height: u32,
    pub now: u64,
    pub shown: Seq<u64>,
}

impl Presenter {
    /// The state after the first `k` of these frames were shown.
    pub open spec fn after_presents(self, shown: Seq<u64>, k: nat) -> Presenter
        decreases k,
    {
        if k == 0 {
            self
        } else {
            self.after_presents(shown, (k - 1) as nat).after_present(shown[k - 1])
        }
    }

    /// The state after a round: the first captured frame has none before it to work with
    /// and is not shown; for every other one as many frames are shown as the multiplier
    /// says.
    pub open spec fn after_round(self, round: Round, multiplier: u32) -> Presenter {
        let captured = self.after_capture(round.width, round.height, round.now);
        if self.has_first_frame {
            captured.after_presents(round.shown, steps_for(multiplier) as nat)
        } else {
            captured
        }
    }

    /// The state after a run of such rounds.
    pub open spec fn after_run(self, run: Seq<Round>, multiplier: u32) -> Presenter
        decreases run.len(),
    {
        if run.len() == 0 {
            self
        } else {
            self.after_run(run.drop_last(), multiplier).after_round(run.last(), multiplier)
        }
    }
}

/// A count that went on by so much, as a counter of 64 bits shows it.
pub open spec fn counter(from: u64, by: int) -> int {
    (from + by) % 0x1_0000_0000_0000_0000
}

proof fn lemma_counter(from: u64, by: int)
    ensures
        0 <= counter(from, by) < 0x1_0000_0000_0000_0000,
        counter(from, 0) == from,
        engine::counted_on(counter(from, by) as u64, 1) == counter(from, by + 1),
{
}

proof fn lemma_presents(p: Presenter, shown: Seq<u64>, k: nat)
    ensures
        ({
            let q = p.after_presents(shown, k);
            &&& q.has_first_frame == p.has_first_frame
            &&& q.telemetry.frames_captured == p.telemetry.frames_captured
            &&& q.telemetry.frames_presented == counter(p.telemetry.frames_presented, k as int)
        }),
    decreases k,
{
    lemma_counter(p.telemetry.frames_presented, k - 1);
    if k > 0 {
        lemma_presents(p, shown, (k - 1) as nat);
    }
}

/// In a run that captures `n` frames, `n` are counted as captured and `n - 1` times the
/// multiplier, at least one, as shown: nothing for the first, and for each later one the
/// frames at equal steps up to it, of which the last is the captured frame itself.
pub proof fn law_every_frame_but_the_first_is_multiplied(
    p: Presenter,
    run: Seq<Round>,
    multiplier: u32,
    dt: int,
)
    requires
        !p.has_first_frame,
        run.len() >= 1,
    ensures
        ({
            let q = p.after_run(run, multiplier);
            let m = steps_for(multiplier);
            &&& m == if multiplier > 1 {
                multiplier as int
            } else {
                1
            }
            &&& q.has_first_frame
            &&& q.telemetry.frames_captured == counter(
                p.telemetry.frames_captured,
                run.len() as int,
            )
            &&& q.telemetry.frames_presented == counter(
                p.telemetry.frames_presented,
                (run.len() - 1) * m,
            )
            &&& forall|step: int|
                1 <= step <= m ==> {
                    let s = #[trigger] step_of(step, m, dt);
                    &&& s.pristine == (step == m)
                    &&& s.alpha == fixed::round_quot(step * ONE, m)
                }
        }),
    decreases run.len(),
{
    let m = steps_for(multiplier);
    let n = run.len() as int;
    let before = p.after_run(run.drop_last(), multiplier);
    lemma_counter(p.telemetry.frames_captured, n - 1);
    assert forall|step: int| 1 <= step <= m implies {
        let s = #[trigger] step_of(step, m, dt);
        &&& s.pristine == (step == m)
        &&& s.alpha == fixed::round_quot(step * ONE, m)
    } by {
        law_steps_lead_to_the_frame(step, m, dt);
    }
    if n == 1 {
        assert(before == p);
        lemma_counter(p.telemetry.frames_presented, 0);
        assert((n - 1) * m == 0);
    } else {
        law_every_frame_but_the_first_is_multiplied(p, run.drop_last(), multiplier, dt);
        let r = run.last();
        let captured = before.after_capture(r.width, r.height, r.now);
        lemma_presents(captured, r.shown, m as nat);
        let shown = p.telemetry.frames_presented as int;
        assert((n - 1) * m == (n - 2) * m + m) by (nonlinear_arith);
        let before_shown = counter(p.telemetry.frames_presented, (n - 2) * m);
        assert((before_shown + m) % 0x1_0000_0000_0000_0000 == (shown + (n - 2) * m + m)
            % 0x1_0000_0000_0000_0000);
    }
}

/// Once a frame was captured there is one to work with; capturing shows nothing by itself.
pub proof fn law_a_captured_frame_is_worked_with(p: Presenter, width: u32, height: u32, now: u64)
    ensures
        p.after_capture(width, height, now).has_first_frame,
        p.after_capture(width, height, now).telemetry.frames_presented
            == p.telemetry.frames_presented,
{
}

} // verus!
