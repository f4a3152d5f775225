//! What the panel shows: the comparison of the limiter off and on, the graph, the status
//! line and the journal.

use std::collections::VecDeque;

use vstd::prelude::*;
use vstd::string::*;

use crate::fixed;
use crate::fixed::{clamp_i64, round_div, ONE};
use crate::live::{LiveStats, Sample, SideStats};
use crate::text;
use crate::text::decimal;

verus! {

/// Least time between two updates of the figures (250 ms).
pub const STATS_INTERVAL_NS: u64 = 250_000_000;

/// How long a message of the profile page stays (4 s).
pub const MESSAGE_NS: u64 = 4_000_000_000;

/// Seconds of frame times on the graph.
pub const GRAPH_SECONDS: i64 = 11;

/// Lines that the journal keeps.
pub const JOURNAL_LINES: usize = 50;

/// Frames of a side that the verdict needs.
pub const VERDICT_FRAMES: u64 = 10;

/// Frames of a side that the tuner needs.
pub const TUNER_FRAMES: u64 = 80;

/// The refresh rate that is taken where none is set, fixed-point.
pub const USUAL_REFRESH_HZ: i64 = 144_000_000;

/// The figures of one side of the comparison.
#[derive(Debug, Clone, Copy, PartialEq, Eq, Structural)]
pub struct SideSummary {
    pub fps: i64,
    pub p50_us: i64,
    pub p99_us: i64,
    pub total: u64,
    pub hold_p50_us: i64,
    pub wait_p50_us: i64,
    pub has_timing: bool,
}

/// The figures of one side.
pub open spec fn summary_of(s: SideStats) -> SideSummary {
    SideSummary {
        fps: s.fps,
        p50_us: s.p50_us,
        p99_us: s.p99_us,
        total: s.total,
        hold_p50_us: s.hold_p50_us,
        wait_p50_us: s.wait_p50_us,
        has_timing: s.has_timing,
    }
}

impl SideSummary {
    /// The figures of one side.
    pub fn of(s: &SideStats) -> (r: SideSummary)
        ensures
            r == summary_of(*s),
    {
        SideSummary {
            fps: s.fps,
            p50_us: s.p50_us,
            p99_us: s.p99_us,
            total: s.total,
            hold_p50_us: s.hold_p50_us,
            wait_p50_us: s.wait_p50_us,
            has_timing: s.has_timing,
        }
    }

    /// How far the worst frames are from the usual ones; zero of less than two frames.
    pub open spec fn jitter_of(self) -> int {
        if self.total >= 2 && self.p99_us > self.p50_us {
            fixed::sat64(self.p99_us - self.p50_us)
        } else {
            0
        }
    }

    /// How far the worst frames are from the usual ones.
    pub fn jitter_us(&self) -> (j: i64)
        ensures
            j == self.jitter_of(),
            j >= 0,
    {
        if self.total >= 2 && self.p99_us > self.p50_us {
            clamp_i64(self.p99_us as i128 - self.p50_us as i128)
        } else {
            0
        }
    }

    /// Are the frame figures of this side shown?
    pub fn is_shown(&self) -> (shown: bool)
        ensures
            shown == (self.total >= 2),
    {
        self.total >= 2
    }

    /// Are the present durations and delays of this side shown?
    pub fn is_timing_shown(&self) -> (shown: bool)
        ensures
            shown == (self.total >= 2 && self.has_timing),
    {
        self.total >= 2 && self.has_timing
    }

    /// Has this side enough frames for the tuner?
    pub fn is_tunable(&self) -> (ready: bool)
        ensures
            ready == (self.total >= TUNER_FRAMES),
    {
        self.total >= TUNER_FRAMES
    }
}

/// The figures that are shown.
#[derive(Debug, Clone, Copy, PartialEq, Eq, Structural)]
pub struct DisplaySnapshot {
    pub fps: i64,
    pub p50_us: i64,
    pub p99_us: i64,
    pub late: u64,
    pub total: u64,
    pub off: SideSummary,
    pub on: SideSummary,
}

impl DisplaySnapshot {
    /// The figures of the moment.
    pub fn of(s: &LiveStats) -> (d: DisplaySnapshot)
        ensures
            d == (DisplaySnapshot {
                fps: s.fps,
                p50_us: s.p50_us,
                p99_us: s.p99_us,
                late: s.late,
                total: s.total,
                off: summary_of(s.off),
                on: summary_of(s.on),
            }),
    {
        DisplaySnapshot {
            fps: s.fps,
            p50_us: s.p50_us,
            p99_us: s.p99_us,
            late: s.late,
            total: s.total,
            off: SideSummary::of(&s.off),
            on: SideSummary::of(&s.on),
        }
    }
}

/// Is an update of the figures due?
pub fn is_refresh_due(last_ns: Option<u64>, now_ns: u64) -> (due: bool)
    ensures
        due == match last_ns {
            Some(last) => now_ns - last >= STATS_INTERVAL_NS,
            None => true,
        },
{
    match last_ns {
        Some(last) => now_ns >= last && now_ns - last >= STATS_INTERVAL_NS,
        None => true,
    }
}

/// Is a message of the profile page still shown?
pub fn is_message_shown(since_ns: u64, now_ns: u64) -> (shown: bool)
    ensures
        shown == (now_ns - since_ns < MESSAGE_NS),
{
    now_ns < since_ns || now_ns - since_ns < MESSAGE_NS
}

/// The verdict on the limiter.
#[derive(Debug, Clone, Copy, PartialEq, Eq, Structural)]
pub enum Verdict {
    /// One of the sides has too few frames.
    Unknown,
    /// Frame times are steadier by this factor, fixed-point.
    Smoother(i64),
    /// The rate is held.
    Steady,
}

/// By how much frame times are steadier: at least 1.1 times, with the jitter of the
/// limited side taken as at least ten microseconds.
pub open spec fn factor_of(off: int, on: int) -> int {
    let divisor = if on < 10_000_000 {
        10_000_000
    } else {
        on
    };
    let times = fixed::sat64(fixed::round_quot(off * ONE, divisor));
    if times < 1_100_000 {
        1_100_000
    } else {
        times
    }
}

/// The verdict on the limiter, from the frames with it off and on.
pub open spec fn verdict_of(off: SideSummary, on: SideSummary) -> Verdict {
    if off.total < VERDICT_FRAMES || on.total < VERDICT_FRAMES {
        Verdict::Unknown
    } else if on.jitter_of() < off.jitter_of() && off.jitter_of() > 50_000_000 {
        Verdict::Smoother(factor_of(off.jitter_of(), on.jitter_of()) as i64)
    } else {
        Verdict::Steady
    }
}

/// The verdict on the limiter, from the frames with it off and on.
pub fn verdict(off: &SideSummary, on: &SideSummary) -> (v: Verdict)
    ensures
        v == verdict_of(*off, *on),
{
    if off.total < VERDICT_FRAMES || on.total < VERDICT_FRAMES {
        return Verdict::Unknown;
    }
    let before: i64 = off.jitter_us();
    let after: i64 = on.jitter_us();
    if after < before && before > 50_000_000 {
        let divisor: i64 = if after < 10_000_000 {
            10_000_000
        } else {
            after
        };
        let times: i64 = clamp_i64(round_div(before as i128 * ONE, divisor as i128));
        let shown: i64 = if times < 1_100_000 {
            1_100_000
        } else {
            times
        };
        Verdict::Smoother(shown)
    } else {
        Verdict::Steady
    }
}

/// The refresh rate that calculations use: the one set by the user, if it is one.
pub fn effective_refresh(set_hz: i64) -> (hz: i64)
    ensures
        hz == if set_hz > 1_000_000 {
            set_hz
        } else {
            USUAL_REFRESH_HZ
        },
{
    if set_hz > 1_000_000 {
        set_hz
    } else {
        USUAL_REFRESH_HZ
    }
}

/// How the panel stands to a game.
#[derive(Debug, Clone, Copy, PartialEq, Eq, Structural)]
pub enum Connection {
    Attached(u32),
    Attaching,
    Idle,
}

/// How the panel stands to a game; process zero is none.
pub fn connection(attached_pid: u32, pending: Option<u32>) -> (c: Connection)
    ensures
        c == if attached_pid != 0 {
            Connection::Attached(attached_pid)
        } else if pending is Some {
            Connection::Attaching
        } else {
            Connection::Idle
        },
{
    if attached_pid != 0 {
        Connection::Attached(attached_pid)
    } else if pending.is_some() {
        Connection::Attaching
    } else {
        Connection::Idle
    }
}

/// What is shown of the driver's latency mode.
#[derive(Debug, Clone, Copy, PartialEq, Eq, Structural)]
pub enum ReflexBadge {
    Hidden,
    Sleep,
    Boost,
    Unavailable,
}

/// What is shown for the state that the game reports.
pub fn reflex_badge(state: u32) -> (b: ReflexBadge)
    ensures
        b == if state == 1 {
            ReflexBadge::Sleep
        } else if state == 2 {
            ReflexBadge::Boost
        } else if state == 0xFF {
            ReflexBadge::Unavailable
        } else {
            ReflexBadge::Hidden
        },
{
    match state {
        1 => ReflexBadge::Sleep,
        2 => ReflexBadge::Boost,
        0xFF => ReflexBadge::Unavailable,
        _ => ReflexBadge::Hidden,
    }
}

/// Is a sample on the graph at an instant?
pub open spec fn on_graph(s: Sample, now: i64, freq: i64) -> bool {
    s.t_qpc <= now && now - s.t_qpc <= GRAPH_SECONDS * freq
}

/// The samples on the graph, oldest first.
pub open spec fn graph_of(samples: Seq<Sample>, now: i64, freq: i64) -> Seq<Sample> {
    samples.filter(|s: Sample| on_graph(s, now, freq))
}

/// The samples on the graph at an instant, oldest first.
pub fn graph(samples: &VecDeque<Sample>, now: i64, freq: i64) -> (points: Vec<Sample>)
    ensures
        points@ == graph_of(samples@, now, freq),
{
    let mut points: Vec<Sample> = Vec::new();
    let mut i: usize = 0;
    let span: i128 = 11 * (freq as i128);
    let ghost keep = |s: Sample| on_graph(s, now, freq);
    proof {
        assert(samples@.take(0) =~= Seq::<Sample>::empty());
        reveal(Seq::filter);
    }
    while i < samples.len()
        invariant
            i <= samples@.len(),
            span == GRAPH_SECONDS * freq,
            keep == (|s: Sample| on_graph(s, now, freq)),
            points@ == samples@.take(i as int).filter(keep),
        decreases samples@.len() - i,
    {
        let s: Sample = samples[i];
        proof {
            assert(samples@.take(i + 1).drop_last() =~= samples@.take(i as int));
            assert(samples@.take(i + 1).last() == s);
            reveal(Seq::filter);
        }
        if s.t_qpc <= now && now as i128 - s.t_qpc as i128 <= span {
            points.push(s);
        }
        i = i + 1;
    }
    assert(samples@.take(i as int) =~= samples@);
    points
}

/// A number with at least two digits.
pub open spec fn two_digits(n: int) -> Seq<char> {
    if n < 10 {
        "0"@ + text::decimal_of(n)
    } else {
        text::decimal_of(n)
    }
}

/// A line of the journal.
pub open spec fn journal_line(hour: int, minute: int, second: int, message: Seq<char>) -> Seq<
    char,
> {
    "["@ + two_digits(hour) + ":"@ + two_digits(minute) + ":"@ + two_digits(second) + "] "@
        + message
}

fn append_two_digits(s: &mut String, n: u16)
    ensures
        final(s)@ == old(s)@ + two_digits(n as int),
{
    let number = decimal(n as u64);
    if n < 10 {
        s.append("0");
    }
    s.append(number.as_str());
    assert(s@ =~= old(s)@ + two_digits(n as int));
}

/// The lines of events that the panel keeps.
#[derive(Debug)]
pub struct Journal {
    pub lines: VecDeque<String>,
}

/// The texts of the lines.
pub open spec fn lines_of(lines: Seq<String>) -> Seq<Seq<char>> {
    lines.map_values(|l: String| l@)
}

/// The lines after another one came, oldest first.
pub open spec fn noted(lines: Seq<Seq<char>>, line: Seq<char>) -> Seq<Seq<char>> {
    if lines.len() >= JOURNAL_LINES {
        lines.drop_first().push(line)
    } else {
        lines.push(line)
    }
}

impl Journal {
    pub fn new() -> (j: Journal)
        ensures
            lines_of(j.lines@) == Seq::<Seq<char>>::empty(),
    {
        let j = Journal { lines: VecDeque::new() };
        assert(lines_of(j.lines@) =~= Seq::<Seq<char>>::empty());
        j
    }

    /// Notes an event with the time of day.
    pub fn note(&mut self, hour: u16, minute: u16, second: u16, message: &str)
        ensures
            lines_of(final(self).lines@) == noted(
                lines_of(old(self).lines@),
                journal_line(hour as int, minute as int, second as int, message@),
            ),
    {
        let mut line = String::from_str("[");
        append_two_digits(&mut line, hour);
        line.append(":");
        append_two_digits(&mut line, minute);
        line.append(":");
        append_two_digits(&mut line, second);
        line.append("] ");
        line.append(message);
        if self.lines.len() >= JOURNAL_LINES {
            let _ = self.lines.pop_front();
        }
        self.lines.push_back(line);
        assert(lines_of(self.lines@) =~= noted(lines_of(old(self).lines@), line@));
    }
}

/// The journal never grows beyond its limit, and its last line is the last event.
pub proof fn law_journal_is_bounded(lines: Seq<Seq<char>>, line: Seq<char>)
    requires
        lines.len() <= JOURNAL_LINES,
    ensures
        noted(lines, line).len() <= JOURNAL_LINES,
        noted(lines, line).last() == line,
        lines.len() < JOURNAL_LINES ==> noted(lines, line).len() == lines.len() + 1,
{
}

/// The verdict praises the limiter only where frame times vary less with it than without
/// it, and then by a factor of at least 1.1.
pub proof fn law_praise_is_earned(off: SideSummary, on: SideSummary)
    ensures
        verdict_of(off, on) is Smoother ==> on.jitter_of() < off.jitter_of(),
        verdict_of(off, on) matches Verdict::Smoother(times) ==> times >= 1_100_000,
        off.total < VERDICT_FRAMES || on.total < VERDICT_FRAMES ==> verdict_of(off, on) is Unknown,
{
}

} // verus!
