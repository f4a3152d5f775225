//! What holds of the live statistics as a whole.

use vstd::prelude::*;

use crate::fixed;
use crate::fixed::ONE;
use crate::live;
use crate::live::{BucketModel, FeedModel, LiveStats, Sample, SideStats};
use crate::pacer;
use crate::ranks;
use crate::ranks::{added_up, is_ranked};
use crate::shared_mem::TelemetryFrame;
use crate::stats;
use crate::stats::ascending;

verus! {

/// The frame times of those frames that meet a condition.
pub open spec fn times_where(s: Seq<Sample>, f: spec_fn(Sample) -> bool) -> Seq<i64> {
    s.filter(f).map_values(|x: Sample| x.ft_us)
}

proof fn lemma_recent(s: Seq<Sample>, now: int, freq: int)
    ensures
        live::recent_times(s, now, freq) == times_where(s, |x: Sample| now - x.t_qpc <= freq),
    decreases s.len(),
{
    reveal(Seq::filter);
    let f = |x: Sample| now - x.t_qpc <= freq;
    if s.len() > 0 {
        lemma_recent(s.drop_last(), now, freq);
        assert(live::recent_times(s, now, freq) =~= times_where(s, f));
    } else {
        assert(live::recent_times(s, now, freq) =~= times_where(s, f));
    }
}

proof fn lemma_valid(s: Seq<Sample>)
    ensures
        live::valid_times(s) == times_where(s, |x: Sample| 0 <= x.ft_us < i64::MAX),
    decreases s.len(),
{
    reveal(Seq::filter);
    let f = |x: Sample| 0 <= x.ft_us < i64::MAX;
    if s.len() > 0 {
        lemma_valid(s.drop_last());
    }
    assert(live::valid_times(s) =~= times_where(s, f));
}

/// A rate of `n` frames that took `total` microseconds together, within one half of its
/// last digit and as far as it can be represented.
pub open spec fn is_rate(fps: int, n: int, total: int) -> bool {
    if total <= 0 {
        fps == 0
    } else {
        ||| -total <= 2 * (fps * total - n * 1_000_000_000_000_000_000) <= total
        ||| fps == i64::MAX && 2 * (n * 1_000_000_000_000_000_000) >= (2 * i64::MAX + 1) * total
    }
}

pub(crate) proof fn lemma_rate(n: int, total: int)
    requires
        0 <= n,
    ensures
        is_rate(live::rate_of(n, total), n, total),
{
    if total > 0 {
        let a = 1_000_000_000_000_000_000 * n;
        let q = fixed::round_quot(a, total);
        fixed::lemma_nearest(a, total);
        assert(a >= 0);
        assert(0 * total <= a <= a * total) by (nonlinear_arith)
            requires
                a >= 0,
                total >= 1,
        ;
        fixed::lemma_round_between(a, total, 0, a);
        if q > i64::MAX {
            assert((2 * i64::MAX + 1) * total <= (2 * q - 1) * total) by (nonlinear_arith)
                requires
                    i64::MAX + 1 <= q,
                    total > 0,
            ;
            assert((2 * q - 1) * total == 2 * (q * total) - total) by (nonlinear_arith);
        }
    }
}

/// The headline is over the frames of the last second. Its rate is their number by their
/// time. Half of them are on either side of its median, and of its 99th percentile 99 in
/// 100 are at or below: it is the longest of up to a hundred. One frame is no measurement.
pub proof fn law_headline_describes_the_last_second(stats: LiveStats, m: FeedModel, now: int)
    requires
        stats.publishes(m, now),
    ensures
        ({
            let times = times_where(m.samples, |x: Sample| now - x.t_qpc <= m.freq);
            let n = times.len();
            &&& n < 2 ==> stats.fps == 0 && stats.p50_us == 0 && stats.p99_us == 0
            &&& n >= 2 ==> {
                &&& is_rate(stats.fps as int, n as int, added_up(times))
                &&& is_ranked(times, stats.p50_us, n as int / 2)
                &&& is_ranked(times, stats.p99_us, n as int * 99 / 100)
                &&& stats.p50_us <= stats.p99_us
                &&& n <= 100 ==> forall|i: int|
                    0 <= i < n ==> #[trigger] times[i] <= stats.p99_us
            }
        }),
{
    let times = times_where(m.samples, |x: Sample| now - x.t_qpc <= m.freq);
    lemma_recent(m.samples, now, m.freq);
    let n = times.len() as int;
    if n >= 2 {
        let up = ascending(times);
        ranks::lemma_sum_adds_up(times);
        lemma_rate(n, stats::sum(times));
        ranks::lemma_ranked(times, n / 2);
        ranks::lemma_ranked(times, n * 99 / 100);
        stats::lemma_ascending_properties(times);
        assert(up[n / 2] <= up[n * 99 / 100]);
        if n <= 100 {
            assert(n * 99 / 100 == n - 1);
            assert forall|i: int| 0 <= i < n implies #[trigger] times[i] <= stats.p99_us by {
                assert(times.contains(times[i]));
                assert(up.contains(times[i]));
                let k = choose|k: int| 0 <= k < up.len() && up[k] == times[i];
                assert(up[k] <= up[n - 1]);
            }
        }
    }
}

/// A side is over its frames that were measured: their rate, their median and their 99th
/// percentile, and the medians of their present calls and of their delays.
pub proof fn law_side_describes_its_frames(side: SideStats, m: BucketModel)
    requires
        side.publishes(m),
    ensures
        ({
            let times = times_where(m.samples, |x: Sample| 0 <= x.ft_us < i64::MAX);
            let n = times.len();
            &&& side.samples@ == m.samples
            &&& side.total == m.total
            &&& side.has_timing
            &&& n < 2 ==> side.fps == 0 && side.p50_us == 0 && side.p99_us == 0
            &&& n >= 2 ==> {
                &&& is_rate(side.fps as int, n as int, added_up(times))
                &&& exists|p: int|
                    #![trigger is_ranked(times, side.p50_us, p)]
                    n - 1 <= 2 * p <= n && is_ranked(times, side.p50_us, p)
                &&& exists|p: int|
                    #![trigger is_ranked(times, side.p99_us, p)]
                    -50 < 100 * p - 99 * (n - 1) <= 50 && is_ranked(times, side.p99_us, p)
                &&& side.p50_us <= side.p99_us
            }
            &&& m.holds.len() > 0 ==> exists|p: int|
                #![trigger is_ranked(m.holds, side.hold_p50_us, p)]
                m.holds.len() - 1 <= 2 * p <= m.holds.len() && is_ranked(
                    m.holds,
                    side.hold_p50_us,
                    p,
                )
            &&& m.waits.len() > 0 ==> exists|p: int|
                #![trigger is_ranked(m.waits, side.wait_p50_us, p)]
                m.waits.len() - 1 <= 2 * p <= m.waits.len() && is_ranked(
                    m.waits,
                    side.wait_p50_us,
                    p,
                )
        }),
{
    let times = times_where(m.samples, |x: Sample| 0 <= x.ft_us < i64::MAX);
    lemma_valid(m.samples);
    let n = times.len() as int;
    if n >= 2 {
        ranks::lemma_sum_adds_up(times);
        lemma_rate(n, stats::sum(times));
        lemma_middle(times);
        ranks::law_percentile_divides_the_values(times, 990_000);
        stats::law_percentiles_are_ordered(times, 500_000, 990_000);
        let p = choose|p: int|
            #![trigger is_ranked(times, side.p99_us, p)]
            {
                &&& 0 <= p < n
                &&& -ONE < 2 * (1_000_000 * p - (n - 1) * 990_000) <= ONE
                &&& is_ranked(times, side.p99_us, p)
            };
        assert(-50 < 100 * p - 99 * (n - 1) <= 50 && is_ranked(times, side.p99_us, p));
    }
    if m.holds.len() > 0 {
        lemma_middle(m.holds);
    }
    if m.waits.len() > 0 {
        lemma_middle(m.waits);
    }
}

pub(crate) proof fn lemma_middle(s: Seq<i64>)
    requires
        s.len() > 0,
    ensures
        exists|p: int|
            #![trigger is_ranked(s, stats::median_of(s), p)]
            s.len() - 1 <= 2 * p <= s.len() && is_ranked(s, stats::median_of(s), p),
{
    ranks::law_percentile_divides_the_values(s, 500_000);
    let x = stats::percentile_of(ascending(s), 500_000);
    let p = choose|p: int|
        #![trigger is_ranked(s, x, p)]
        {
            &&& 0 <= p < s.len()
            &&& -ONE < 2 * (1_000_000 * p - (s.len() - 1) * 500_000) <= ONE
            &&& is_ranked(s, x, p)
        };
    assert(s.len() - 1 <= 2 * p <= s.len() && is_ranked(s, stats::median_of(s), p));
}

/// A time in ticks and in fixed-point microseconds, within one half.
pub open spec fn same_time(us: int, ticks: int, freq: int) -> bool {
    -freq <= 2 * (us * freq - ticks * 1_000_000_000_000) <= freq
}

/// A record measures a frame where it comes less than a second after the one before it and
/// not with or before that one. The frame time is from one present call to the next, its
/// present call and its delay are measured in the record, and a delay is never negative.
pub proof fn law_record_measures_a_frame(prev: i64, f: TelemetryFrame, freq: int)
    requires
        0 < freq <= i64::MAX,
    ensures
        ({
            let ticks = f.present_start_qpc - prev;
            let m = live::measured(prev, f, freq);
            &&& m is Some <==> 0 < ticks < freq
            &&& m is Some ==> {
                &&& m->0.sample.t_qpc == f.present_start_qpc
                &&& same_time(m->0.sample.ft_us as int, ticks, freq)
                &&& i64::MIN < m->0.hold_us < i64::MAX ==> same_time(
                    m->0.hold_us as int,
                    f.present_end_qpc - f.present_start_qpc,
                    freq,
                )
                &&& m->0.wait_us >= 0
                &&& f.release_qpc <= f.present_end_qpc ==> m->0.wait_us == 0
                &&& f.release_qpc >= f.present_end_qpc && m->0.wait_us < i64::MAX ==> same_time(
                    m->0.wait_us as int,
                    f.release_qpc - f.present_end_qpc,
                    freq,
                )
            }
        }),
{
    let ticks = f.present_start_qpc - prev;
    if 0 < ticks < freq {
        assert(0 * freq <= ticks * 1_000_000_000_000 <= 1_000_000_000_000 * freq)
            by (nonlinear_arith)
            requires
                0 < ticks < freq,
        ;
        fixed::lemma_round_between(ticks * 1_000_000_000_000, freq, 0, 1_000_000_000_000);
        fixed::lemma_nearest(ticks * 1_000_000_000_000, freq);
        fixed::lemma_nearest(
            (f.present_end_qpc - f.present_start_qpc) * 1_000_000_000_000,
            freq,
        );
        let waited = pacer::later_of(f.release_qpc - f.present_end_qpc, 0);
        let w = waited * 1_000_000_000_000;
        fixed::lemma_nearest(w, freq);
        assert(0 * freq <= w <= w * freq) by (nonlinear_arith)
            requires
                0 <= w,
                1 <= freq,
        ;
        fixed::lemma_round_between(w, freq, 0, w);
        fixed::lemma_round_exact(0, freq);
        assert(0 * freq == 0);
    }
}

/// A bucket keeps the frames of the ten seconds before its newest one, with their present
/// calls and delays, and no more than 4096 of them; a frame that comes in order drops none
/// of those. A clock that goes back starts it anew. Every frame is counted.
pub proof fn law_bucket_keeps_ten_seconds(
    m: BucketModel,
    freq: int,
    sample: Sample,
    hold: i64,
    wait: i64,
)
    requires
        m.wf(),
        freq > 0,
    ensures
        ({
            let after = m.pushed(freq, sample, hold, wait);
            let n = after.samples.len();
            let in_order = m.samples.len() == 0 || m.samples.last().t_qpc <= sample.t_qpc;
            &&& 1 <= n <= 4096
            &&& after.holds.len() == n && after.waits.len() == n
            &&& after.samples.last() == sample
            &&& after.holds.last() == hold
            &&& after.waits.last() == wait
            &&& m.total < u64::MAX ==> after.total == m.total + 1
            &&& forall|i: int|
                0 <= i < n ==> sample.t_qpc - (#[trigger] after.samples[i]).t_qpc <= 10 * freq
            &&& !in_order ==> n == 1
            &&& in_order ==> {
                let k = m.samples.len() + 1 - n;
                &&& k >= 0
                &&& forall|i: int|
                    0 <= i < n - 1 ==> {
                        &&& #[trigger] after.samples[i] == m.samples[i + k]
                        &&& after.holds[i] == m.holds[i + k]
                        &&& after.waits[i] == m.waits[i + k]
                    }
                &&& forall|i: int|
                    0 <= i < k ==> sample.t_qpc - (#[trigger] m.samples[i]).t_qpc > 10 * freq
                        || m.samples.len() + 1 - i > 4096
            }
        }),
{
    let base = m.base(sample.t_qpc);
    let s = base.samples.push(sample);
    let cutoff = live::window_start(sample.t_qpc as int, freq);
    assert(live::in_time_order(s));
    assert(s.last().t_qpc >= cutoff);
    live::law_window_keeps_its_period(s, cutoff);
    let k = live::stale(s, cutoff) as int;
    let after = m.pushed(freq, sample, hold, wait);
    assert(after.samples =~= s.skip(k));
    assert forall|i: int| 0 <= i < after.samples.len() implies sample.t_qpc - (
    #[trigger] after.samples[i]).t_qpc <= 10 * freq by {
        assert(after.samples[i] == s[i + k]);
    }
    if m.samples.len() == 0 || m.samples.last().t_qpc <= sample.t_qpc {
        assert(base == m);
        assert forall|i: int| 0 <= i < k implies sample.t_qpc - (#[trigger] m.samples[i]).t_qpc > 10
            * freq || m.samples.len() + 1 - i > 4096 by {
            assert(s[i] == m.samples[i]);
        }
    }
}

/// What a series of records is counted as: each one, and those that say so as late or as
/// not delayed, as far as can be counted to.
pub proof fn law_records_are_counted(m: FeedModel, frames: Seq<TelemetryFrame>, on: bool)
    requires
        0 <= m.total,
        0 <= m.late,
        0 <= m.bypass,
        m.total + frames.len() <= u64::MAX,
        m.late + frames.len() <= u64::MAX,
        m.bypass + frames.len() <= u64::MAX,
    ensures
        ({
            let after = m.after_all(frames, on);
            &&& after.total == m.total + frames.len()
            &&& after.late == m.late + frames.filter(
                |f: TelemetryFrame| f.flags & 0x2 != 0,
            ).len()
            &&& after.bypass == m.bypass + frames.filter(
                |f: TelemetryFrame| f.flags & 0x1 != 0,
            ).len()
            &&& frames.len() > 0 ==> after.last_present == Some(frames.last().present_start_qpc)
            &&& after.freq == m.freq
        }),
    decreases frames.len(),
{
    reveal(Seq::filter);
    if frames.len() > 0 {
        law_records_are_counted(m, frames.drop_last(), on);
        frames.drop_last().lemma_filter_len(|f: TelemetryFrame| f.flags & 0x2 != 0);
        frames.drop_last().lemma_filter_len(|f: TelemetryFrame| f.flags & 0x1 != 0);
    }
}

/// A measured frame is counted for the state that the limiter was in, and for no other,
/// and it is on the graph.
pub proof fn law_frame_goes_to_its_side(m: FeedModel, prev: i64, f: TelemetryFrame)
    requires
        m.wf(),
        0 < m.freq <= i64::MAX,
        m.last_present == Some(prev),
        0 < f.present_start_qpc - prev < m.freq,
    ensures
        ({
            let on = m.after(f, true);
            let off = m.after(f, false);
            &&& on.on.samples.len() > 0 && on.on.samples.last().t_qpc == f.present_start_qpc
            &&& off.off.samples.len() > 0 && off.off.samples.last().t_qpc == f.present_start_qpc
            &&& on.off == m.off
            &&& off.on == m.on
            &&& on.samples == off.samples
            &&& on.samples.len() > 0 && on.samples.last().t_qpc == f.present_start_qpc
            &&& same_time(
                on.samples.last().ft_us as int,
                f.present_start_qpc - prev,
                m.freq,
            )
        }),
{
    law_record_measures_a_frame(prev, f, m.freq);
    let x = live::measured(prev, f, m.freq)->0;
    law_bucket_keeps_ten_seconds(m.on, m.freq, x.sample, x.hold_us, x.wait_us);
    law_bucket_keeps_ten_seconds(m.off, m.freq, x.sample, x.hold_us, x.wait_us);
}

/// The graph takes up every measured frame, starts anew where the clock goes back, and is
/// cut to the ten seconds before its newest frame, of which it drops none but where there
/// are more than 4096.
pub proof fn law_graph_keeps_ten_seconds(m: FeedModel, x: Sample)
    requires
        live::in_time_order(m.samples),
        m.freq > 0,
    ensures
        live::graphed(m.samples, x).last() == x,
        live::in_time_order(live::graphed(m.samples, x)),
        m.samples.len() > 0 && x.t_qpc < m.samples.last().t_qpc ==> live::graphed(
            m.samples,
            x,
        ).len() == 1,
        m.samples.len() == 0 || x.t_qpc >= m.samples.last().t_qpc ==> live::graphed(
            m.samples,
            x,
        ).drop_last() == m.samples,
        ({
            let t = m.trimmed();
            let k = m.samples.len() - t.samples.len();
            let newest = m.samples.last().t_qpc;
            &&& t == (FeedModel { samples: t.samples, ..m })
            &&& m.samples.len() == 0 ==> t.samples.len() == 0
            &&& m.samples.len() > 0 ==> {
                &&& 1 <= t.samples.len() <= 4096
                &&& k >= 0
                &&& forall|i: int|
                    0 <= i < t.samples.len() ==> #[trigger] t.samples[i] == m.samples[i + k]
                &&& forall|i: int|
                    k <= i < m.samples.len() ==> newest - (#[trigger] m.samples[i]).t_qpc <= 10
                        * m.freq
                &&& forall|i: int|
                    0 <= i < k ==> newest - (#[trigger] m.samples[i]).t_qpc > 10 * m.freq
                        || m.samples.len() - i > 4096
            }
        }),
{
    let g = live::graphed(m.samples, x);
    assert(m.samples.push(x).drop_last() =~= m.samples);
    if m.samples.len() > 0 {
        let cutoff = live::window_start(m.samples.last().t_qpc as int, m.freq);
        assert(m.samples.last().t_qpc >= cutoff);
        live::law_window_keeps_its_period(m.samples, cutoff);
    }
}

/// A record that measures no frame is counted and nothing else.
pub proof fn law_gap_is_no_frame(m: FeedModel, f: TelemetryFrame, on: bool)
    requires
        0 < m.freq <= i64::MAX,
        m.last_present is Some ==> {
            let ticks = f.present_start_qpc - m.last_present->0;
            ticks <= 0 || ticks >= m.freq
        },
    ensures
        m.after(f, on).samples == m.samples,
        m.after(f, on).on == m.on,
        m.after(f, on).off == m.off,
{
    if let Some(prev) = m.last_present {
        law_record_measures_a_frame(prev, f, m.freq);
    }
}

/// What is published is what was counted, and both sides with it; a side without frames has
/// no figures.
pub proof fn law_counts_are_published(stats: LiveStats, m: FeedModel, now: int)
    requires
        stats.publishes(m, now),
    ensures
        stats.samples@ == m.samples,
        stats.total == m.total,
        stats.late == m.late,
        stats.bypass == m.bypass,
        stats.on.total == m.on.total && stats.on.samples@ == m.on.samples,
        stats.off.total == m.off.total && stats.off.samples@ == m.off.samples,
        m.on.holds.len() == 0 ==> stats.on.hold_p50_us == 0,
        m.on.waits.len() == 0 ==> stats.on.wait_p50_us == 0,
        m.off.holds.len() == 0 ==> stats.off.hold_p50_us == 0,
        m.off.waits.len() == 0 ==> stats.off.wait_p50_us == 0,
{
    stats::lemma_ascending_properties(m.on.holds);
    stats::lemma_ascending_properties(m.on.waits);
    stats::lemma_ascending_properties(m.off.holds);
    stats::lemma_ascending_properties(m.off.waits);
}

} // verus!
