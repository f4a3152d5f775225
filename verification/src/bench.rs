//! Benchmark phases: the telemetry of a game under one setting, condensed to figures.
//!
//! Durations are fixed-point milliseconds, rates fixed-point frames per second.

use vstd::prelude::*;

use crate::cli::HookWait;
use crate::config::{ReflexMode, RuntimeConfig};
use crate::fixed;
use crate::fixed::{clamp_i64, round_div, ONE};
use crate::live::working_frequency;
use crate::pacer::PacerMode;
use crate::shared_mem::TelemetryFrame;
use crate::stats;
use crate::stats::{isqrt, percentile, sorted, spread_of, sum_of};

verus! {

/// Fixed-point milliseconds in one second.
pub const SECOND_MS: i128 = 1_000_000_000;

/// How long the benchmark waits for the hooks of its program (5 s).
pub const READY_TIMEOUT_NS: u64 = 5_000_000_000;

/// Frame times of half a second and more are gaps, not samples.
pub const LONGEST_FRAME_MS: i64 = 500_000_000;

/// The figures of one phase.
#[derive(Debug)]
pub struct PhaseResult {
    pub name: String,
    pub total_frames: usize,
    pub fps: i64,
    pub ft_mean_ms: i64,
    pub ft_p50_ms: i64,
    pub ft_p99_ms: i64,
    pub ft_min_ms: i64,
    pub ft_max_ms: i64,
    /// Standard deviation, rounded down.
    pub ft_std_ms: u64,
    /// Distance from the median to the 99th percentile.
    pub ft_jitter_ms: i64,
    pub present_hold_p50_ms: i64,
    pub present_hold_max_ms: i64,
    pub pacing_wait_p50_ms: i64,
    pub late_frames: usize,
}

/// The largest of `s`; zero of none.
pub open spec fn max_of(s: Seq<i64>) -> i64 {
    if s.len() == 0 {
        0
    } else {
        stats::ascending(s)[s.len() - 1]
    }
}

/// The smallest of `s`; zero of none.
pub open spec fn min_of(s: Seq<i64>) -> i64 {
    if s.len() == 0 {
        0
    } else {
        stats::ascending(s)[0]
    }
}

/// Frames per second of frames that took `total` milliseconds together.
pub open spec fn phase_rate(n: int, total: int) -> int {
    if total > 0 {
        fixed::sat64(fixed::round_quot(SECOND_MS * ONE * n, total))
    } else {
        0
    }
}

/// Mean of the squared deviations from the mean.
pub open spec fn variance_of(s: Seq<i64>) -> int {
    fixed::round_quot(stats::spread(s, stats::mean_of(s)), s.len() as int)
}

impl PhaseResult {
    /// The figures of the given samples.
    pub open spec fn summarises(
        &self,
        ft: Seq<i64>,
        hold: Seq<i64>,
        wait: Seq<i64>,
        late: usize,
    ) -> bool {
        &&& self.total_frames == ft.len()
        &&& self.ft_p50_ms == stats::median_of(ft)
        &&& self.ft_p99_ms == stats::percentile_of(stats::ascending(ft), 990_000)
        &&& self.ft_min_ms == min_of(ft)
        &&& self.ft_max_ms == max_of(ft)
        &&& self.ft_mean_ms == stats::mean_of(ft)
        &&& self.fps == phase_rate(ft.len() as int, stats::sum(ft))
        &&& self.ft_jitter_ms == fixed::sat64(self.ft_p99_ms - self.ft_p50_ms)
        &&& if ft.len() == 0 {
            &&& self.ft_std_ms == 0
            &&& self.present_hold_p50_ms == 0
            &&& self.present_hold_max_ms == 0
            &&& self.pacing_wait_p50_ms == 0
            &&& self.late_frames == 0
        } else {
            &&& stats::is_root(self.ft_std_ms as int, variance_of(ft))
            &&& self.present_hold_p50_ms == stats::median_of(hold)
            &&& self.present_hold_max_ms == max_of(hold)
            &&& self.pacing_wait_p50_ms == stats::median_of(wait)
            &&& self.late_frames == late
        }
    }
}

fn phase_rate_of(n: usize, total: i128) -> (rate: i64)
    ensures
        rate == phase_rate(n as int, total as int),
{
    if total <= 0 {
        return 0;
    }
    assert(0 <= SECOND_MS * ONE * n <= 0x7000_0000_0000_0000_0000_0000_0000_0000)
        by (nonlinear_arith)
        requires
            0 <= n <= 0xffff_ffff_ffff_ffff,
            SECOND_MS == 1_000_000_000,
            ONE == 1_000_000,
    ;
    clamp_i64(round_div(SECOND_MS * ONE * n as i128, total))
}

proof fn lemma_mean_is_a_word(s: Seq<i64>)
    requires
        s.len() > 0,
    ensures
        i64::MIN <= stats::mean_of(s) <= i64::MAX,
{
    stats::lemma_mean_within(s, i64::MIN as int, i64::MAX as int);
}

/// The figures of a phase. The squared deviations have to fit in a machine word.
pub fn compute_phase_metrics(
    name: &str,
    ft: &Vec<i64>,
    hold: &Vec<i64>,
    wait: &Vec<i64>,
    late: usize,
) -> (result: PhaseResult)
    requires
        stats::spread(ft@, stats::mean_of(ft@)) <= i128::MAX,
    ensures
        result.name@ == name@,
        result.summarises(ft@, hold@, wait@, late),
{
    let n: usize = ft.len();
    if n == 0 {
        proof {
            stats::lemma_ascending_properties(ft@);
            assert(stats::ascending(ft@) =~= Seq::empty());
        }
        return PhaseResult {
            name: name.to_owned(),
            total_frames: 0,
            fps: 0,
            ft_mean_ms: 0,
            ft_p50_ms: 0,
            ft_p99_ms: 0,
            ft_min_ms: 0,
            ft_max_ms: 0,
            ft_std_ms: 0,
            ft_jitter_ms: 0,
            present_hold_p50_ms: 0,
            present_hold_max_ms: 0,
            pacing_wait_p50_ms: 0,
            late_frames: 0,
        };
    }
    let total: i128 = sum_of(ft);
    proof {
        lemma_mean_is_a_word(ft@);
        assert(n * i64::MIN > i128::MIN) by (nonlinear_arith)
            requires
                0 <= n <= 0xffff_ffff_ffff_ffff,
        ;
    }
    let mean: i64 = round_div(total, n as i128) as i64;
    let spread: i128 = spread_of(ft, mean);
    let variance: i128 = round_div(spread, n as i128);
    proof {
        let m = n as int;
        assert(0 * m <= spread <= spread * m) by (nonlinear_arith)
            requires
                spread >= 0,
                m >= 1,
        ;
        fixed::lemma_round_between(spread as int, m, 0, spread as int);
    }
    let root: u64 = isqrt(variance as u128);
    let sorted_ft = sorted(ft);
    let p50: i64 = percentile(&sorted_ft, 500_000);
    let p99: i64 = percentile(&sorted_ft, 990_000);
    let sorted_hold = sorted(hold);
    let sorted_wait = sorted(wait);
    let hold_max: i64 = if sorted_hold.len() == 0 {
        0
    } else {
        sorted_hold[sorted_hold.len() - 1]
    };
    PhaseResult {
        name: name.to_owned(),
        total_frames: n,
        fps: phase_rate_of(n, total),
        ft_mean_ms: mean,
        ft_p50_ms: p50,
        ft_p99_ms: p99,
        ft_min_ms: sorted_ft[0],
        ft_max_ms: sorted_ft[n - 1],
        ft_std_ms: root,
        ft_jitter_ms: clamp_i64(p99 as i128 - p50 as i128),
        present_hold_p50_ms: percentile(&sorted_hold, 500_000),
        present_hold_max_ms: hold_max,
        pacing_wait_p50_ms: percentile(&sorted_wait, 500_000),
        late_frames: late,
    }
}

/// What holds of the figures of every phase that saw a frame: they are ordered, the
/// mean lies between the extremes, and jitter and deviation are not negative.
pub proof fn law_phase_figures_are_ordered(
    r: PhaseResult,
    ft: Seq<i64>,
    hold: Seq<i64>,
    wait: Seq<i64>,
    late: usize,
)
    requires
        r.summarises(ft, hold, wait, late),
        ft.len() > 0,
    ensures
        r.ft_min_ms <= r.ft_p50_ms <= r.ft_p99_ms <= r.ft_max_ms,
        r.ft_min_ms <= r.ft_mean_ms <= r.ft_max_ms,
        r.ft_jitter_ms >= 0,
        r.ft_std_ms >= 0,
        forall|i: int| 0 <= i < ft.len() ==> r.ft_min_ms <= #[trigger] ft[i] <= r.ft_max_ms,
{
    stats::law_percentiles_are_ordered(ft, 500_000, 990_000);
    stats::law_percentile_is_a_value(ft, 500_000);
    stats::law_percentile_is_a_value(ft, 990_000);
    stats::lemma_ascending_properties(ft);
    let up = stats::ascending(ft);
    assert forall|i: int| 0 <= i < ft.len() implies r.ft_min_ms <= #[trigger] ft[i]
        <= r.ft_max_ms by {
        assert(ft.contains(ft[i]));
        assert(up.contains(ft[i]));
        let k = choose|k: int| 0 <= k < up.len() && up[k] == ft[i];
        assert(up[0] <= up[k] <= up[up.len() - 1]);
    }
    stats::lemma_mean_within(ft, r.ft_min_ms as int, r.ft_max_ms as int);
}

/// Equal frame times have no jitter and no deviation.
pub proof fn law_constant_frame_time_is_flat(
    r: PhaseResult,
    ft: Seq<i64>,
    hold: Seq<i64>,
    wait: Seq<i64>,
    late: usize,
    x: i64,
)
    requires
        r.summarises(ft, hold, wait, late),
        ft.len() > 0,
        forall|i: int| 0 <= i < ft.len() ==> ft[i] == x,
    ensures
        r.ft_p50_ms == x,
        r.ft_p99_ms == x,
        r.ft_mean_ms == x,
        r.ft_jitter_ms == 0,
        r.ft_std_ms == 0,
{
    law_phase_figures_are_ordered(r, ft, hold, wait, late);
    stats::law_percentile_is_a_value(ft, 500_000);
    stats::law_percentile_is_a_value(ft, 990_000);
    stats::lemma_mean_within(ft, x as int, x as int);
    stats::lemma_no_spread(ft, x as int);
    fixed::lemma_round_exact(0, ft.len() as int);
    assert(0int * 0int == 0 && 1int * 1int == 1) by (nonlinear_arith);
    stats::lemma_root_is_unique(r.ft_std_ms as int, 0, 0);
}

/// Fixed-point milliseconds that `ticks` take.
pub open spec fn ticks_to_ms(ticks: int, freq: int) -> int {
    fixed::round_quot(ticks * SECOND_MS, freq)
}

fn qpc_to_ms(ticks: i128, freq: i64) -> (ms: i128)
    requires
        freq > 0,
        -0x1_0000_0000_0000_0000 <= ticks <= 0x1_0000_0000_0000_0000,
    ensures
        ms == ticks_to_ms(ticks as int, freq as int),
{
    round_div(ticks * SECOND_MS, freq as i128)
}

/// Time between two present calls that counts as a frame: longer than a tenth of a
/// millisecond and shorter than half a second.
pub open spec fn is_frame(ticks: int, freq: int) -> bool {
    ticks * 10_000 > freq && ticks * 2 < freq
}

/// The samples of a phase.
#[verifier::ext_equal]
pub struct PhaseModel {
    pub freq: int,
    pub last_present: Option<i64>,
    pub ft: Seq<i64>,
    pub hold: Seq<i64>,
    pub wait: Seq<i64>,
    pub late: int,
}

impl PhaseModel {
    pub open spec fn wf(self) -> bool {
        &&& self.freq > 0
        &&& self.hold.len() == self.ft.len()
        &&& self.wait.len() == self.ft.len()
        &&& self.late <= self.ft.len()
        &&& forall|i: int| 0 <= i < self.ft.len() ==> 0 <= #[trigger] self.ft[i] <= LONGEST_FRAME_MS
    }

    /// The phase after one record.
    pub open spec fn after(self, f: TelemetryFrame) -> PhaseModel {
        let next = PhaseModel { last_present: Some(f.present_start_qpc), ..self };
        match self.last_present {
            Some(prev) if is_frame(f.present_start_qpc - prev, self.freq) => PhaseModel {
                ft: self.ft.push(ticks_to_ms(f.present_start_qpc - prev, self.freq) as i64),
                hold: self.hold.push(
                    fixed::sat64(
                        ticks_to_ms(f.present_end_qpc - f.present_start_qpc, self.freq),
                    ) as i64,
                ),
                wait: self.wait.push(
                    fixed::sat64(
                        ticks_to_ms(
                            crate::pacer::later_of(f.release_qpc - f.present_end_qpc, 0),
                            self.freq,
                        ),
                    ) as i64,
                ),
                late: self.late + if f.flags & TelemetryFrame::FLAG_LATE != 0 {
                    1int
                } else {
                    0int
                },
                ..next
            },
            _ => next,
        }
    }
}

/// Collects the samples of a phase.
#[derive(Debug)]
pub struct PhaseCollector {
    pub freq: i64,
    pub last_present: Option<i64>,
    pub ft: Vec<i64>,
    pub hold: Vec<i64>,
    pub wait: Vec<i64>,
    pub late: usize,
}

impl View for PhaseCollector {
    type V = PhaseModel;

    open spec fn view(&self) -> PhaseModel {
        PhaseModel {
            freq: self.freq as int,
            last_present: self.last_present,
            ft: self.ft@,
            hold: self.hold@,
            wait: self.wait@,
            late: self.late as int,
        }
    }
}

impl PhaseCollector {
    pub fn new(reported_freq: i64) -> (c: PhaseCollector)
        ensures
            c@.wf(),
            c@ == (PhaseModel {
                freq: if reported_freq <= 0 {
                    crate::live::DEFAULT_FREQUENCY as int
                } else {
                    reported_freq as int
                },
                last_present: None,
                ft: Seq::empty(),
                hold: Seq::empty(),
                wait: Seq::empty(),
                late: 0,
            }),
    {
        PhaseCollector {
            freq: working_frequency(reported_freq),
            last_present: None,
            ft: Vec::new(),
            hold: Vec::new(),
            wait: Vec::new(),
            late: 0,
        }
    }

    /// Takes one record.
    pub fn ingest(&mut self, f: &TelemetryFrame)
        requires
            old(self)@.wf(),
        ensures
            final(self)@ == old(self)@.after(*f),
            final(self)@.wf(),
    {
        match self.last_present {
            Some(prev) => {
                let ticks: i128 = f.present_start_qpc as i128 - prev as i128;
                if ticks * 10_000 > self.freq as i128 && ticks * 2 < self.freq as i128 {
                    let freq: i64 = self.freq;
                    let ft: i128 = qpc_to_ms(ticks, freq);
                    proof {
                        assert(0 * freq <= ticks * SECOND_MS <= LONGEST_FRAME_MS * freq)
                            by (nonlinear_arith)
                            requires
                                0 < ticks,
                                ticks * 2 < freq,
                                SECOND_MS == 1_000_000_000,
                                LONGEST_FRAME_MS == 500_000_000,
                        ;
                        fixed::lemma_round_between(
                            ticks * SECOND_MS,
                            freq as int,
                            0,
                            LONGEST_FRAME_MS as int,
                        );
                    }
                    let held: i128 = f.present_end_qpc as i128 - f.present_start_qpc as i128;
                    let waited: i128 = f.release_qpc as i128 - f.present_end_qpc as i128;
                    self.ft.push(ft as i64);
                    self.hold.push(clamp_i64(qpc_to_ms(held, freq)));
                    self.wait.push(
                        clamp_i64(qpc_to_ms(if waited >= 0 { waited } else { 0 }, freq)),
                    );
                    assert(self.late < self.ft.len());
                    if f.flags & TelemetryFrame::FLAG_LATE != 0 {
                        self.late = self.late + 1;
                    }
                }
            },
            None => {},
        }
        self.last_present = Some(f.present_start_qpc);
    }

    /// The figures of the phase.
    pub fn finish(&self, name: &str) -> (result: PhaseResult)
        requires
            self@.wf(),
        ensures
            result.name@ == name@,
            result.summarises(self.ft@, self.hold@, self.wait@, self.late),
    {
        proof {
            lemma_spread_fits(self.ft@, self.ft.len());
        }
        compute_phase_metrics(name, &self.ft, &self.hold, &self.wait, self.late)
    }
}

/// The squared deviations of frame times below half a second fit in a machine word.
proof fn lemma_spread_fits(ft: Seq<i64>, n: usize)
    requires
        n == ft.len(),
        forall|i: int| 0 <= i < ft.len() ==> 0 <= #[trigger] ft[i] <= LONGEST_FRAME_MS,
    ensures
        stats::spread(ft, stats::mean_of(ft)) <= i128::MAX,
{
    if ft.len() > 0 {
        stats::lemma_mean_within(ft, 0, LONGEST_FRAME_MS as int);
    }
    stats::lemma_spread_bound(ft, stats::mean_of(ft), LONGEST_FRAME_MS as int);
    assert(n * (LONGEST_FRAME_MS * LONGEST_FRAME_MS) <= i128::MAX) by (nonlinear_arith)
        requires
            0 <= n <= 0xffff_ffff_ffff_ffff,
            LONGEST_FRAME_MS == 500_000_000,
    ;
}

/// The settings that the benchmark measures under.
#[derive(Debug, Clone, Copy, PartialEq, Eq, Structural)]
pub enum Phase {
    /// No limiter.
    Uncapped,
    /// Fixed vertical sync at 60 frames per second.
    Fixed60,
    /// Variable refresh at 40 frames per second.
    Vrr40,
}

/// What the game is told for a phase.
pub open spec fn phase_settings(phase: Phase) -> RuntimeConfig {
    RuntimeConfig {
        enabled: phase != Phase::Uncapped,
        mode: match phase {
            Phase::Uncapped => PacerMode::Bypass,
            Phase::Fixed60 => PacerMode::FixedVsync,
            Phase::Vrr40 => PacerMode::Vrr,
        },
        target_fps: match phase {
            Phase::Uncapped => 0,
            Phase::Fixed60 => 60_000_000,
            Phase::Vrr40 => 40_000_000,
        },
        refresh_hz: 0,
        vsync_override: phase != Phase::Uncapped,
        force_waitable: false,
        reflex_mode: ReflexMode::Off,
        overlay_enabled: false,
    }
}

/// What the game is told for a phase.
pub fn phase_config(phase: Phase) -> (cfg: RuntimeConfig)
    ensures
        cfg == phase_settings(phase),
{
    let paced = phase != Phase::Uncapped;
    let (mode, target_fps): (PacerMode, i64) = match phase {
        Phase::Uncapped => (PacerMode::Bypass, 0),
        Phase::Fixed60 => (PacerMode::FixedVsync, 60_000_000),
        Phase::Vrr40 => (PacerMode::Vrr, 40_000_000),
    };
    RuntimeConfig {
        enabled: paced,
        mode,
        target_fps,
        refresh_hz: 0,
        vsync_override: paced,
        force_waitable: false,
        reflex_mode: ReflexMode::Off,
        overlay_enabled: false,
    }
}

/// The phases against each other.
#[derive(Debug, Clone, Copy, PartialEq, Eq, Structural)]
pub struct Comparison {
    /// From input to display without a limiter, where three frames queue up.
    pub uncapped_lag_ms: i64,
    /// With fixed vertical sync, where one does.
    pub fixed_lag_ms: i64,
    pub fixed_saved_ms: i64,
    /// With variable refresh.
    pub vrr_lag_ms: i64,
    pub vrr_saved_ms: i64,
    /// How many times steadier frame times are with fixed vertical sync; one where they
    /// hardly vary at all.
    pub steadier: i64,
}

/// Jitter that counts as none (a microsecond).
pub const NO_JITTER_MS: i64 = 1_000;

/// The phases against each other.
pub open spec fn compared(off: PhaseResult, r60: PhaseResult, r40: PhaseResult) -> Comparison {
    let uncapped = fixed::sat64(off.present_hold_p50_ms + 3 * off.ft_p50_ms);
    let at60 = fixed::sat64(r60.present_hold_p50_ms + r60.ft_p50_ms);
    let at40 = fixed::sat64(r40.present_hold_p50_ms + r40.ft_mean_ms);
    Comparison {
        uncapped_lag_ms: uncapped as i64,
        fixed_lag_ms: at60 as i64,
        fixed_saved_ms: fixed::sat64(uncapped - at60) as i64,
        vrr_lag_ms: at40 as i64,
        vrr_saved_ms: fixed::sat64(uncapped - at40) as i64,
        steadier: if r60.ft_jitter_ms > NO_JITTER_MS {
            fixed::sat64(
                fixed::round_quot(off.ft_jitter_ms * ONE, r60.ft_jitter_ms as int),
            ) as i64
        } else {
            ONE as i64
        },
    }
}

/// Sets the phases against each other.
pub fn compare(off: &PhaseResult, r60: &PhaseResult, r40: &PhaseResult) -> (c: Comparison)
    ensures
        c == compared(*off, *r60, *r40),
{
    let uncapped: i64 = clamp_i64(
        off.present_hold_p50_ms as i128 + 3 * (off.ft_p50_ms as i128),
    );
    let at60: i64 = clamp_i64(r60.present_hold_p50_ms as i128 + r60.ft_p50_ms as i128);
    let at40: i64 = clamp_i64(r40.present_hold_p50_ms as i128 + r40.ft_mean_ms as i128);
    let steadier: i64 = if r60.ft_jitter_ms > NO_JITTER_MS {
        clamp_i64(round_div(off.ft_jitter_ms as i128 * ONE, r60.ft_jitter_ms as i128))
    } else {
        1_000_000
    };
    Comparison {
        uncapped_lag_ms: uncapped,
        fixed_lag_ms: at60,
        fixed_saved_ms: clamp_i64(uncapped as i128 - at60 as i128),
        vrr_lag_ms: at40,
        vrr_saved_ms: clamp_i64(uncapped as i128 - at40 as i128),
        steadier,
    }
}

/// What the wait of the benchmark for the hooks comes to: a failure that they report may
/// still be followed by success, so only the time ends the wait.
pub fn ready_wait(state: u32, waited_ns: u64) -> (w: HookWait)
    ensures
        w == if state == crate::cli::HOOKS_INSTALLED {
            HookWait::Installed
        } else if waited_ns >= READY_TIMEOUT_NS {
            HookWait::TimedOut
        } else {
            HookWait::Wait
        },
{
    if state == 1 {
        HookWait::Installed
    } else if waited_ns >= READY_TIMEOUT_NS {
        HookWait::TimedOut
    } else {
        HookWait::Wait
    }
}

/// The figures of one phase, as a tuner takes them.
#[derive(Debug, Clone, Copy, PartialEq, Eq, Structural)]
pub struct SideMetrics {
    pub fps: i64,
    pub p50_ms: i64,
    pub p99_ms: i64,
    pub jitter_ms: i64,
    pub hold_p50_ms: i64,
    pub hold_max_ms: i64,
    pub wait_p50_ms: i64,
    pub late_count: usize,
    pub sample_count: usize,
}

/// What a tuner is handed: a game without and with the limiter.
#[derive(Debug, Clone, Copy, PartialEq, Eq, Structural)]
pub struct GameTelemetryInput {
    pub off: SideMetrics,
    pub on: SideMetrics,
    pub refresh_hz: i64,
    pub current_target_fps: i64,
}

/// The figures of a phase, as a tuner takes them.
pub open spec fn metrics_of(r: PhaseResult) -> SideMetrics {
    SideMetrics {
        fps: r.fps,
        p50_ms: r.ft_p50_ms,
        p99_ms: r.ft_p99_ms,
        jitter_ms: r.ft_jitter_ms,
        hold_p50_ms: r.present_hold_p50_ms,
        hold_max_ms: r.present_hold_max_ms,
        wait_p50_ms: r.pacing_wait_p50_ms,
        late_count: r.late_frames,
        sample_count: r.total_frames,
    }
}

impl SideMetrics {
    /// The figures of a phase.
    pub fn of(r: &PhaseResult) -> (m: SideMetrics)
        ensures
            m == metrics_of(*r),
    {
        SideMetrics {
            fps: r.fps,
            p50_ms: r.ft_p50_ms,
            p99_ms: r.ft_p99_ms,
            jitter_ms: r.ft_jitter_ms,
            hold_p50_ms: r.present_hold_p50_ms,
            hold_max_ms: r.present_hold_max_ms,
            wait_p50_ms: r.pacing_wait_p50_ms,
            late_count: r.late_frames,
            sample_count: r.total_frames,
        }
    }
}

/// What a tuner is handed after the two phases, the second of which aims at 60 frames per
/// second.
pub fn tuner_input(off: &PhaseResult, on: &PhaseResult, refresh_hz: i64) -> (t: GameTelemetryInput)
    ensures
        t == (GameTelemetryInput {
            off: metrics_of(*off),
            on: metrics_of(*on),
            refresh_hz,
            current_target_fps: 60_000_000,
        }),
{
    GameTelemetryInput {
        off: SideMetrics::of(off),
        on: SideMetrics::of(on),
        refresh_hz,
        current_target_fps: 60_000_000,
    }
}

} // verus!
