//! What holds of the benchmark's figures as a whole.

use vstd::prelude::*;

use crate::bench;
use crate::bench::{PhaseModel, PhaseResult};
use crate::fixed;
use crate::live_laws;
use crate::ranks;
use crate::ranks::{added_up, is_ranked, squared_up};
use crate::shared_mem::TelemetryFrame;
use crate::stats;

verus! {

/// The middle one of values, the later of two.
pub open spec fn is_middle(s: Seq<i64>, x: i64) -> bool {
    if s.len() == 0 {
        x == 0
    } else {
        exists|p: int| #![trigger is_ranked(s, x, p)] s.len() - 1 <= 2 * p <= s.len() && is_ranked(s, x, p)
    }
}

proof fn lemma_is_middle(s: Seq<i64>)
    ensures
        is_middle(s, stats::median_of(s)),
{
    if s.len() > 0 {
        live_laws::lemma_middle(s);
    } else {
        stats::lemma_ascending_properties(s);
    }
}

/// None of the values is above it, and it is one of them.
pub open spec fn is_largest(s: Seq<i64>, x: i64) -> bool {
    if s.len() == 0 {
        x == 0
    } else {
        s.contains(x) && forall|i: int| 0 <= i < s.len() ==> #[trigger] s[i] <= x
    }
}

proof fn lemma_ends(s: Seq<i64>)
    ensures
        is_largest(s, bench::max_of(s)),
        s.len() > 0 ==> s.contains(bench::min_of(s)),
        forall|i: int| 0 <= i < s.len() ==> bench::min_of(s) <= #[trigger] s[i],
{
    stats::lemma_ascending_properties(s);
    if s.len() > 0 {
        let up = stats::ascending(s);
        assert(up.contains(up[0]) && up.contains(up[up.len() - 1]));
        assert forall|i: int| 0 <= i < s.len() implies bench::min_of(s) <= #[trigger] s[i]
            <= bench::max_of(s) by {
            assert(s.contains(s[i]));
            assert(up.contains(s[i]));
            let k = choose|k: int| 0 <= k < up.len() && up[k] == s[i];
            assert(up[0] <= up[k] <= up[up.len() - 1]);
        }
    }
}

/// The figures of a phase: the number of its frames, their rate over their time, their
/// mean, their middle and their extremes; one in a hundred is above the 99th percentile,
/// and jitter is how far that is from the middle.
pub proof fn law_phase_describes_its_frames(
    r: PhaseResult,
    ft: Seq<i64>,
    hold: Seq<i64>,
    wait: Seq<i64>,
    late: usize,
)
    requires
        r.summarises(ft, hold, wait, late),
        ft.len() > 0,
    ensures
        ({
            let n = ft.len() as int;
            &&& r.total_frames == n
            &&& r.late_frames == late
            &&& live_laws::is_rate(r.fps as int, n, 1_000 * added_up(ft))
            &&& -n <= 2 * (r.ft_mean_ms * n - added_up(ft)) <= n
            &&& is_middle(ft, r.ft_p50_ms)
            &&& exists|p: int|
                #![trigger is_ranked(ft, r.ft_p99_ms, p)]
                -50 < 100 * p - 99 * (n - 1) <= 50 && is_ranked(ft, r.ft_p99_ms, p)
            &&& is_largest(ft, r.ft_max_ms)
            &&& ft.contains(r.ft_min_ms)
            &&& forall|i: int| 0 <= i < n ==> r.ft_min_ms <= #[trigger] ft[i]
            &&& r.ft_p99_ms - r.ft_p50_ms <= i64::MAX ==> r.ft_jitter_ms == r.ft_p99_ms
                - r.ft_p50_ms
            &&& is_middle(hold, r.present_hold_p50_ms)
            &&& is_largest(hold, r.present_hold_max_ms)
            &&& is_middle(wait, r.pacing_wait_p50_ms)
        }),
{
    let n = ft.len() as int;
    lemma_is_middle(ft);
    lemma_is_middle(hold);
    lemma_is_middle(wait);
    lemma_ends(ft);
    lemma_ends(hold);
    ranks::lemma_sum_adds_up(ft);
    ranks::law_mean_is_the_share_of_the_sum(ft);
    ranks::law_percentile_divides_the_values(ft, 990_000);
    stats::law_percentiles_are_ordered(ft, 500_000, 990_000);
    let p = choose|p: int|
        #![trigger is_ranked(ft, r.ft_p99_ms, p)]
        {
            &&& 0 <= p < n
            &&& -fixed::ONE < 2 * (1_000_000 * p - (n - 1) * 990_000) <= fixed::ONE
            &&& is_ranked(ft, r.ft_p99_ms, p)
        };
    assert(-50 < 100 * p - 99 * (n - 1) <= 50 && is_ranked(ft, r.ft_p99_ms, p));
    lemma_phase_rate(n, added_up(ft));
}

proof fn lemma_phase_rate(n: int, total: int)
    requires
        0 <= n,
    ensures
        live_laws::is_rate(bench::phase_rate(n, total), n, 1_000 * total),
{
    if total > 0 {
        let a = 1_000_000_000_000_000 * n;
        let q = fixed::round_quot(a, total);
        fixed::lemma_nearest(a, total);
        assert(0 * total <= a <= a * total) by (nonlinear_arith)
            requires
                a >= 0,
                total >= 1,
        ;
        fixed::lemma_round_between(a, total, 0, a);
        let fps = bench::phase_rate(n, total);
        assert(fps * (1_000 * total) == 1_000 * (fps * total)) by (nonlinear_arith);
        if q > i64::MAX {
            assert((2 * i64::MAX + 1) * total <= (2 * q - 1) * total) by (nonlinear_arith)
                requires
                    i64::MAX + 1 <= q,
                    total > 0,
            ;
            assert((2 * q - 1) * total == 2 * (q * total) - total) by (nonlinear_arith);
            assert((2 * i64::MAX + 1) * (1_000 * total) == 1_000 * ((2 * i64::MAX + 1) * total))
                by (nonlinear_arith);
        }
    }
}

/// The standard deviation, squared, is the mean of the squared distances from the mean, as
/// far as a whole number can be.
pub proof fn law_deviation_is_the_mean_square(
    r: PhaseResult,
    ft: Seq<i64>,
    hold: Seq<i64>,
    wait: Seq<i64>,
    late: usize,
)
    requires
        r.summarises(ft, hold, wait, late),
        ft.len() > 0,
    ensures
        ({
            let n = ft.len() as int;
            let d = r.ft_std_ms as int;
            let squares = squared_up(ft, r.ft_mean_ms as int);
            &&& 2 * (n * (d * d)) <= 2 * squares + n
            &&& 2 * squares - n < 2 * (n * ((d + 1) * (d + 1)))
        }),
{
    let n = ft.len() as int;
    let d = r.ft_std_ms as int;
    let mean = stats::mean_of(ft);
    stats::lemma_mean_within(ft, i64::MIN as int, i64::MAX as int);
    ranks::lemma_spread_adds_up(ft, mean);
    let squares = squared_up(ft, mean);
    let v = bench::variance_of(ft);
    fixed::lemma_nearest(squares, n);
    assert(n * (d * d) <= v * n && v * n < n * ((d + 1) * (d + 1))) by (nonlinear_arith)
        requires
            d * d <= v,
            v < (d + 1) * (d + 1),
            n > 0,
    ;
}

/// A record that comes more than a tenth of a millisecond and less than half a second after
/// the one before it is a frame: its time, its present call and its delay become samples.
/// No other record does, and every record is what the next one is measured from.
pub proof fn law_record_becomes_a_sample(m: PhaseModel, f: TelemetryFrame)
    requires
        m.wf(),
        m.freq <= i64::MAX,
    ensures
        ({
            let next = m.after(f);
            let t: int = match m.last_present {
                Some(prev) => f.present_start_qpc - prev,
                None => 0,
            };
            let held = f.present_end_qpc - f.present_start_qpc;
            let idle: int = if f.release_qpc > f.present_end_qpc {
                f.release_qpc - f.present_end_qpc
            } else {
                0
            };
            let is_frame = m.last_present is Some && m.freq < 10_000 * t && 2 * t < m.freq;
            &&& next.last_present == Some(f.present_start_qpc)
            &&& next.freq == m.freq
            &&& !is_frame ==> next.ft == m.ft && next.hold == m.hold && next.wait == m.wait
                && next.late == m.late
            &&& is_frame ==> {
                &&& next.ft.len() == m.ft.len() + 1 && next.ft.drop_last() == m.ft
                &&& next.hold.len() == m.hold.len() + 1 && next.hold.drop_last() == m.hold
                &&& next.wait.len() == m.wait.len() + 1 && next.wait.drop_last() == m.wait
                &&& lasts(next.ft.last() as int, t, m.freq)
                &&& is_short(held, m.freq) ==> lasts(next.hold.last() as int, held, m.freq)
                &&& is_short(idle, m.freq) ==> lasts(next.wait.last() as int, idle, m.freq)
                &&& next.late == m.late + if f.flags & TelemetryFrame::FLAG_LATE != 0 {
                    1int
                } else {
                    0int
                }
            }
        }),
{
    let next = m.after(f);
    if let Some(prev) = m.last_present {
        let t = f.present_start_qpc - prev;
        if bench::is_frame(t, m.freq) {
            assert(is_short(t, m.freq));
            lemma_lasts(t, m.freq);
            let held = f.present_end_qpc - f.present_start_qpc;
            let idle: int = if f.release_qpc > f.present_end_qpc {
                f.release_qpc - f.present_end_qpc
            } else {
                0
            };
            if is_short(held, m.freq) {
                lemma_lasts(held, m.freq);
            }
            if is_short(idle, m.freq) {
                lemma_lasts(idle, m.freq);
            }
            assert(next.ft.drop_last() =~= m.ft);
            assert(next.hold.drop_last() =~= m.hold);
            assert(next.wait.drop_last() =~= m.wait);
        }
    }
}

/// Less than a million seconds.
pub open spec fn is_short(ticks: int, freq: int) -> bool {
    -1_000_000 * freq < ticks < 1_000_000 * freq
}

/// The fixed-point milliseconds nearest to so many ticks: a second is so many of the one
/// and as many of the other.
pub open spec fn lasts(ms: int, ticks: int, freq: int) -> bool {
    -freq <= 2 * (ms * freq - ticks * 1_000_000_000) <= freq
}

proof fn lemma_lasts(ticks: int, freq: int)
    requires
        freq > 0,
        is_short(ticks, freq),
    ensures
        lasts(bench::ticks_to_ms(ticks, freq), ticks, freq),
        i64::MIN < bench::ticks_to_ms(ticks, freq) < i64::MAX,
{
    fixed::lemma_nearest(ticks * 1_000_000_000, freq);
    fixed::lemma_round_between(
        ticks * 1_000_000_000,
        freq,
        -1_000_000_000_000_000,
        1_000_000_000_000_000,
    );
}

/// What the phases differ by: without a limiter a picture waits for three frames, with
/// fixed vertical sync for one and with variable refresh for one of mean length; what is
/// saved is what one has less than the other.
pub proof fn law_phases_are_set_against_each_other(
    off: PhaseResult,
    r60: PhaseResult,
    r40: PhaseResult,
)
    requires
        is_moderate(off) && is_moderate(r60) && is_moderate(r40),
    ensures
        ({
            let c = bench::compared(off, r60, r40);
            &&& c.uncapped_lag_ms == off.present_hold_p50_ms + off.ft_p50_ms + off.ft_p50_ms
                + off.ft_p50_ms
            &&& c.fixed_lag_ms == r60.present_hold_p50_ms + r60.ft_p50_ms
            &&& c.vrr_lag_ms == r40.present_hold_p50_ms + r40.ft_mean_ms
            &&& c.fixed_lag_ms + c.fixed_saved_ms == c.uncapped_lag_ms
            &&& c.vrr_lag_ms + c.vrr_saved_ms == c.uncapped_lag_ms
            &&& r60.ft_jitter_ms <= 1_000 ==> c.steadier == 1_000_000
            &&& r60.ft_jitter_ms > 1_000 ==> -r60.ft_jitter_ms <= 2 * (c.steadier
                * r60.ft_jitter_ms - 1_000_000 * off.ft_jitter_ms) <= r60.ft_jitter_ms
        }),
{
    if r60.ft_jitter_ms > 1_000 {
        let (a, b) = (off.ft_jitter_ms * 1_000_000, r60.ft_jitter_ms as int);
        fixed::lemma_nearest(a, b);
        assert(-1_000_000_000_000_000_000 * b <= a <= 1_000_000_000_000_000_000 * b)
            by (nonlinear_arith)
            requires
                -1_000_000_000_000_000_000 <= a <= 1_000_000_000_000_000_000,
                b >= 1,
        ;
        fixed::lemma_round_between(
            a,
            b,
            -1_000_000_000_000_000_000,
            1_000_000_000_000_000_000,
        );
    }
}

/// The figures are times below a thousand seconds.
pub open spec fn is_moderate(r: PhaseResult) -> bool {
    &&& 0 <= r.present_hold_p50_ms <= 1_000_000_000_000
    &&& 0 <= r.ft_p50_ms <= 1_000_000_000_000
    &&& 0 <= r.ft_mean_ms <= 1_000_000_000_000
    &&& 0 <= r.ft_jitter_ms <= 1_000_000_000_000
}

/// The phases: only the first has no limiter; the others aim at 60 and at 40 frames per
/// second, with vertical sync taken over, and nothing else of the game is touched.
pub proof fn law_phases_differ_in_their_limiter()
    ensures
        forall|p: bench::Phase|
            ({
                let s = #[trigger] bench::phase_settings(p);
                &&& s.enabled <==> s.target_fps > 0
                &&& s.enabled <==> s.vsync_override
                &&& s.enabled <==> s.mode != crate::pacer::PacerMode::Bypass
                &&& s.mode == crate::pacer::PacerMode::FixedVsync <==> s.target_fps == 60_000_000
                &&& s.mode == crate::pacer::PacerMode::Vrr <==> s.target_fps == 40_000_000
                &&& s.refresh_hz == 0 && !s.force_waitable && !s.overlay_enabled
                &&& s.reflex_mode == crate::config::ReflexMode::Off
            }),
        !bench::phase_settings(bench::Phase::Uncapped).enabled,
        bench::phase_settings(bench::Phase::Fixed60).target_fps == 60_000_000,
        bench::phase_settings(bench::Phase::Vrr40).target_fps == 40_000_000,
{
}

/// A tuner is handed the figures of a phase one by one.
pub proof fn law_tuner_gets_the_figures(r: PhaseResult)
    ensures
        ({
            let m = bench::metrics_of(r);
            &&& m.fps == r.fps
            &&& m.p50_ms == r.ft_p50_ms && m.p99_ms == r.ft_p99_ms && m.jitter_ms == r.ft_jitter_ms
            &&& m.hold_p50_ms == r.present_hold_p50_ms && m.hold_max_ms == r.present_hold_max_ms
            &&& m.wait_p50_ms == r.pacing_wait_p50_ms
            &&& m.late_count == r.late_frames && m.sample_count == r.total_frames
        }),
{
}

} // verus!
