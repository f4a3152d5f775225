//! What holds of the panel's figures, graph and verdict as a whole.

use vstd::prelude::*;

use crate::display;
use crate::display::{SideSummary, Verdict};
use crate::etw;
use crate::etw::EtwFeed;
use crate::fixed;
use crate::live;
use crate::live::Sample;
use crate::live_laws;
use crate::ranks;
use crate::ranks::{added_up, is_ranked};
use crate::stats;
use crate::text;

verus! {

/// Jitter is the distance from the median to the 99th percentile, and nothing where there
/// are less than two frames or the one is not above the other.
pub proof fn law_jitter_is_a_distance(s: SideSummary)
    ensures
        ({
            let d = s.p99_us - s.p50_us;
            &&& s.total >= 2 && 0 <= d <= i64::MAX ==> s.p50_us + s.jitter_of() == s.p99_us
            &&& s.total < 2 || d <= 0 ==> s.jitter_of() == 0
            &&& s.jitter_of() >= 0
        }),
{
}

/// How the limiter is judged: with ten frames on both sides and a jitter of more than 50 microseconds
/// that the limiter makes smaller, frame times are smoother, by as much as the one jitter
/// is to the other, but the limited one counts for at least ten microseconds and the factor
/// for at least 1.1. In any other case the rate is held.
pub proof fn law_verdict_compares_the_jitter(off: SideSummary, on: SideSummary)
    ensures
        ({
            let (a, b) = (off.jitter_of(), on.jitter_of());
            let v = display::verdict_of(off, on);
            let counted: int = if b < 10_000_000 {
                10_000_000
            } else {
                b
            };
            &&& v == Verdict::Unknown <==> off.total < 10 || on.total < 10
            &&& v is Smoother <==> off.total >= 10 && on.total >= 10 && a > 50_000_000 && b < a
            &&& v matches Verdict::Smoother(times) ==> {
                &&& times >= 1_100_000
                &&& 1_100_000 < times < i64::MAX ==> -counted <= 2 * (times * counted - 1_000_000 * a)
                    <= counted
                &&& times == 1_100_000 ==> 2 * (1_000_000 * a) <= (2 * 1_100_000 + 1) * counted
            }
        }),
{
    let (a, b) = (off.jitter_of(), on.jitter_of());
    let counted: int = if b < 10_000_000 {
        10_000_000
    } else {
        b
    };
    let n = a * 1_000_000;
    fixed::lemma_nearest(n, counted);
    assert(0 * counted <= n <= n * counted) by (nonlinear_arith)
        requires
            n >= 0,
            counted >= 1,
    ;
    fixed::lemma_round_between(n, counted, 0, n);
    let q = fixed::round_quot(n, counted);
    assert(q <= 1_100_000 ==> 2 * n <= (2 * 1_100_000 + 1) * counted) by (nonlinear_arith)
        requires
            2 * (q * counted - n) >= -counted,
            counted >= 1,
    ;
}

/// The graph shows the frames of the last eleven seconds, each of them, in their order, and
/// none from the time to come.
pub proof fn law_graph_shows_eleven_seconds(samples: Seq<Sample>, now: i64, freq: i64)
    ensures
        ({
            let g = display::graph_of(samples, now, freq);
            &&& forall|s: Sample| #[trigger]
                g.contains(s) <==> samples.contains(s) && s.t_qpc <= now && now - s.t_qpc <= 11
                    * freq
            &&& (forall|i: int| 0 <= i < samples.len() ==> (#[trigger] samples[i]).t_qpc <= now
                && now - samples[i].t_qpc <= 11 * freq) ==> g == samples
        }),
{
    let keep = |s: Sample| display::on_graph(s, now, freq);
    let g = display::graph_of(samples, now, freq);
    assert forall|s: Sample| #[trigger] g.contains(s) <==> samples.contains(s) && s.t_qpc <= now
        && now - s.t_qpc <= 11 * freq by {
        lemma_kept(samples, keep, s);
    }
    if forall|i: int| 0 <= i < samples.len() ==> (#[trigger] samples[i]).t_qpc <= now && now
        - samples[i].t_qpc <= 11 * freq {
        lemma_all_kept(samples, keep);
    }
}

proof fn lemma_kept(s: Seq<Sample>, keep: spec_fn(Sample) -> bool, x: Sample)
    ensures
        s.filter(keep).contains(x) <==> s.contains(x) && keep(x),
    decreases s.len(),
{
    reveal(Seq::filter);
    if s.len() > 0 {
        let rest = s.drop_last();
        lemma_kept(rest, keep, x);
        assert(s =~= rest.push(s.last()));
        let f = rest.filter(keep);
        if rest.contains(x) {
            let i = choose|i: int| 0 <= i < rest.len() && rest[i] == x;
            assert(s[i] == x);
        }
        if s.contains(x) && x != s.last() {
            let i = choose|i: int| 0 <= i < s.len() && s[i] == x;
            assert(rest[i] == x);
        }
        if keep(s.last()) {
            let g = f.push(s.last());
            assert(s.filter(keep) == g);
            if f.contains(x) {
                let i = choose|i: int| 0 <= i < f.len() && f[i] == x;
                assert(g[i] == x);
            }
            if g.contains(x) && x != s.last() {
                let i = choose|i: int| 0 <= i < g.len() && g[i] == x;
                assert(f[i] == x);
            }
            assert(g[f.len() as int] == s.last());
        }
        assert(s[s.len() - 1] == s.last());
    }
}

proof fn lemma_all_kept(s: Seq<Sample>, keep: spec_fn(Sample) -> bool)
    requires
        forall|i: int| 0 <= i < s.len() ==> keep(#[trigger] s[i]),
    ensures
        s.filter(keep) == s,
    decreases s.len(),
{
    reveal(Seq::filter);
    if s.len() > 0 {
        let rest = s.drop_last();
        assert forall|i: int| 0 <= i < rest.len() implies keep(#[trigger] rest[i]) by {
            assert(rest[i] == s[i]);
        }
        lemma_all_kept(rest, keep);
        assert(s =~= rest.push(s.last()));
    } else {
        assert(s.filter(keep) =~= s);
    }
}

/// The journal drops its oldest line for a new one once it has fifty, and none before; the
/// other lines stay in their order.
pub proof fn law_journal_keeps_fifty_lines(lines: Seq<Seq<char>>, line: Seq<char>)
    ensures
        ({
            let after = display::noted(lines, line);
            let k: int = if lines.len() >= 50 {
                1
            } else {
                0
            };
            &&& after.len() == lines.len() + 1 - k
            &&& after.last() == line
            &&& forall|i: int| 0 <= i < after.len() - 1 ==> #[trigger] after[i] == lines[i + k]
        }),
{
}

/// Two present events are as far apart as their timestamps, which count tenths of a
/// microsecond; the first event, and one that is not later, measures nothing.
pub proof fn law_events_are_as_far_apart_as_their_stamps(last: u64, ts: u64)
    ensures
        last > 0 && ts > last && (ts - last) * 100_000 <= i64::MAX ==> 10 * etw::event_interval(
            last,
            ts,
        ) == 1_000_000 * (ts - last),
        last == 0 || ts <= last ==> etw::event_interval(last, ts) == 0,
{
}

/// The graph of observed frames takes up every one of them and drops those at its front
/// that are more than ten seconds old, up to the first that is not.
pub proof fn law_observed_frames_last_ten_seconds(s: Seq<Sample>, now: i64, ft: i64, freq: i64)
    requires
        freq > 0,
    ensures
        ({
            let g = EtwFeed::graph(s, now, ft as int, freq as int);
            let k = s.len() + 1 - g.len();
            &&& g.len() >= 1
            &&& k >= 0
            &&& g.last() == (Sample { t_qpc: now, ft_us: ft })
            &&& now - g[0].t_qpc <= 10 * freq
            &&& forall|i: int| 0 <= i < g.len() - 1 ==> #[trigger] g[i] == s[i + k]
            &&& forall|i: int| 0 <= i < k ==> now - (#[trigger] s[i]).t_qpc > 10 * freq
        }),
{
    let grown = s.push(Sample { t_qpc: now, ft_us: ft });
    let cutoff = now - 10 * freq;
    lemma_expired(grown, cutoff);
    let k = etw::expired(grown, cutoff) as int;
    assert forall|i: int| 0 <= i < k implies now - (#[trigger] s[i]).t_qpc > 10 * freq by {
        assert(grown[i] == s[i]);
    }
}

proof fn lemma_expired(s: Seq<Sample>, cutoff: int)
    requires
        s.len() > 0,
        s.last().t_qpc >= cutoff,
    ensures
        etw::expired(s, cutoff) < s.len(),
        s[etw::expired(s, cutoff) as int].t_qpc >= cutoff,
        forall|i: int| 0 <= i < etw::expired(s, cutoff) ==> (#[trigger] s[i]).t_qpc < cutoff,
    decreases s.len(),
{
    if s[0].t_qpc < cutoff {
        let rest = s.drop_first();
        assert(rest.len() > 0 && rest.last() == s.last());
        lemma_expired(rest, cutoff);
        assert forall|i: int| 0 <= i < etw::expired(s, cutoff) implies (#[trigger] s[i]).t_qpc
            < cutoff by {
            if i > 0 {
                assert(s[i] == rest[i - 1]);
            }
        }
    }
}

/// The figures of frame times: their number over their time, their median and their 99th
/// percentile. One frame time is no measurement.
pub proof fn law_figures_describe_the_times(times: Seq<i64>)
    ensures
        ({
            let (fps, p50, p99) = live::figures(times);
            let n = times.len();
            &&& n < 2 ==> fps == 0 && p50 == 0 && p99 == 0
            &&& n >= 2 ==> {
                &&& live_laws::is_rate(fps, n as int, added_up(times))
                &&& exists|p: int|
                    #![trigger is_ranked(times, p50, p)]
                    n - 1 <= 2 * p <= n && is_ranked(times, p50, p)
                &&& exists|p: int|
                    #![trigger is_ranked(times, p99, p)]
                    -50 < 100 * p - 99 * (n - 1) <= 50 && is_ranked(times, p99, p)
            }
        }),
{
    let n = times.len() as int;
    let (fps, p50, p99) = live::figures(times);
    if n >= 2 {
        ranks::lemma_sum_adds_up(times);
        live_laws::lemma_rate(n, stats::sum(times));
        live_laws::lemma_middle(times);
        ranks::law_percentile_divides_the_values(times, 990_000);
        let p = choose|p: int|
            #![trigger is_ranked(times, p99, p)]
            {
                &&& 0 <= p < n
                &&& -fixed::ONE < 2 * (1_000_000 * p - (n - 1) * 990_000) <= fixed::ONE
                &&& is_ranked(times, p99, p)
            };
        assert(-50 < 100 * p - 99 * (n - 1) <= 50 && is_ranked(times, p99, p));
    }
}

/// Events are taken where they are present calls of the followed process, and figures are
/// worked out anew after 20 ms.
pub proof fn law_only_the_followed_process_counts(f: EtwFeed, e: etw::PresentEvent, now: u64)
    ensures
        e.pid != f.target_pid ==> !f.follows(e),
        !seq![42u16, 126u16, 168u16, 172u16, 175u16, 184u16].contains(e.id) ==> !f.follows(e),
        seq![42u16, 126u16, 168u16, 172u16, 175u16, 184u16].contains(e.id) && e.pid == f.target_pid
            ==> f.follows(e),
        f.last_publish_ns is None ==> f.is_due(now),
        f.last_publish_ns is Some && now >= f.last_publish_ns->0 ==> (f.is_due(now) <==> now
            - f.last_publish_ns->0 >= 20_000_000),
        f.last_publish_ns is Some && now < f.last_publish_ns->0 ==> !f.is_due(now),
{
    let ids = seq![42u16, 126u16, 168u16, 172u16, 175u16, 184u16];
    assert(ids[0] == 42 && ids[1] == 126 && ids[2] == 168 && ids[3] == 172 && ids[4] == 175
        && ids[5] == 184);
}

/// The figures of a side are taken over one by one.
pub proof fn law_summary_holds_the_figures(s: live::SideStats)
    ensures
        ({
            let f = display::summary_of(s);
            &&& f.fps == s.fps && f.p50_us == s.p50_us && f.p99_us == s.p99_us
            &&& f.total == s.total && f.has_timing == s.has_timing
            &&& f.hold_p50_us == s.hold_p50_us && f.wait_p50_us == s.wait_p50_us
        }),
{
}

/// A line of the journal starts with the time of day, two digits each, in brackets, and ends
/// with the message.
pub proof fn law_lines_start_with_the_time(h: int, m: int, s: int, message: Seq<char>)
    requires
        0 <= h < 24,
        0 <= m < 60,
        0 <= s < 60,
    ensures
        ({
            let line = display::journal_line(h, m, s, message);
            &&& line.len() == 11 + message.len()
            &&& line.skip(11) == message
            &&& line[0] == '[' && line[3] == ':' && line[6] == ':' && line[9] == ']'
                && line[10] == ' '
            &&& line[1] == text::digit(h / 10) && line[2] == text::digit(h % 10)
            &&& line[4] == text::digit(m / 10) && line[5] == text::digit(m % 10)
            &&& line[7] == text::digit(s / 10) && line[8] == text::digit(s % 10)
        }),
{
    reveal_strlit("[");
    reveal_strlit(":");
    reveal_strlit("] ");
    lemma_two_digits(h);
    lemma_two_digits(m);
    lemma_two_digits(s);
    let line = display::journal_line(h, m, s, message);
    assert(line.skip(11) =~= message);
}

proof fn lemma_two_digits(n: int)
    requires
        0 <= n < 100,
    ensures
        display::two_digits(n) == seq![text::digit(n / 10), text::digit(n % 10)],
{
    reveal_strlit("0");
    reveal_with_fuel(text::decimal_of, 2);
    assert(display::two_digits(n) =~= seq![text::digit(n / 10), text::digit(n % 10)]);
}

} // verus!
