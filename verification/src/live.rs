//! Live frame-time statistics: rolling windows over the telemetry of a game, split
//! by whether the limiter was on.
//!
//! Instants are counter ticks, durations fixed-point microseconds and rates
//! fixed-point frames per second.

use std::collections::VecDeque;

use vstd::prelude::*;

use crate::fixed;
use crate::fixed::{clamp_i64, round_div, ONE, SECOND_US};
use crate::pacer;
use crate::pacer::wide_qpc_to_us;
use crate::shared_mem::TelemetryFrame;
use crate::stats;
use crate::stats::{p50_of, percentile, sorted, sum_of};

verus! {

/// Seconds of frame-time history that are kept.
pub const HISTORY_SECONDS: i64 = 10;

/// Most samples that a window keeps.
pub const MAX_QUEUE_SAMPLES: usize = 4096;

/// Counter frequency taken where none can be had.
pub const DEFAULT_FREQUENCY: i64 = 10_000_000;

/// The frequency to work with for a reported one.
pub fn working_frequency(reported: i64) -> (freq: i64)
    ensures
        freq == if reported <= 0 {
            DEFAULT_FREQUENCY
        } else {
            reported
        },
{
    if reported <= 0 { DEFAULT_FREQUENCY } else { reported }
}

/// One frame: when it was presented, and the time since the frame before.
#[derive(Debug, Clone, Copy, PartialEq, Eq, Structural)]
pub struct Sample {
    pub t_qpc: i64,
    pub ft_us: i64,
}

impl Sample {
    /// A frame time that can be a measurement: not negative, and not the value that
    /// stands for "out of range".
    pub open spec fn is_valid(self) -> bool {
        0 <= self.ft_us < i64::MAX
    }
}

/// The valid frame times of a window, oldest first.
pub open spec fn valid_times(s: Seq<Sample>) -> Seq<i64>
    decreases s.len(),
{
    if s.len() == 0 {
        Seq::empty()
    } else if s.last().is_valid() {
        valid_times(s.drop_last()).push(s.last().ft_us)
    } else {
        valid_times(s.drop_last())
    }
}

/// Fixed-point rate of `n` events that took `total` fixed-point microseconds; zero
/// where they took none.
pub open spec fn rate_of(n: int, total: int) -> int {
    if total > 0 {
        fixed::sat64(fixed::round_quot(SECOND_US * ONE * n, total))
    } else {
        0
    }
}

/// Rate, median and 99th percentile of frame times; zeros for fewer than two.
pub open spec fn figures(times: Seq<i64>) -> (int, i64, i64) {
    if times.len() < 2 {
        (0, 0, 0)
    } else {
        (
            rate_of(times.len() as int, stats::sum(times)),
            stats::percentile_of(stats::ascending(times), 500_000),
            stats::percentile_of(stats::ascending(times), 990_000),
        )
    }
}

/// Rate of `n` events in `total` fixed-point microseconds.
pub fn event_rate(n: usize, total: i128) -> (rate: i64)
    ensures
        rate == rate_of(n as int, total as int),
{
    if total <= 0 {
        return 0;
    }
    assert(0 <= SECOND_US * ONE * n <= 0x7000_0000_0000_0000_0000_0000_0000_0000)
        by (nonlinear_arith)
        requires
            0 <= n <= 0xffff_ffff_ffff_ffff,
            SECOND_US == 1_000_000_000_000,
            ONE == 1_000_000,
    ;
    clamp_i64(round_div(SECOND_US * ONE * n as i128, total))
}

fn times_figures(times: &Vec<i64>) -> (r: (i64, i64, i64))
    ensures
        r.0 == figures(times@).0,
        r.1 == figures(times@).1,
        r.2 == figures(times@).2,
{
    if times.len() < 2 {
        return (0, 0, 0);
    }
    let in_order = sorted(times);
    (
        event_rate(times.len(), sum_of(times)),
        percentile(&in_order, 500_000),
        percentile(&in_order, 990_000),
    )
}

proof fn lemma_valid_times_step(s: Seq<Sample>, i: int)
    requires
        0 <= i < s.len(),
    ensures
        valid_times(s.take(i + 1)) == if s[i].is_valid() {
            valid_times(s.take(i)).push(s[i].ft_us)
        } else {
            valid_times(s.take(i))
        },
{
    assert(s.take(i + 1).drop_last() =~= s.take(i));
}

fn collect_valid(samples: &VecDeque<Sample>) -> (times: Vec<i64>)
    ensures
        times@ == valid_times(samples@),
{
    let mut times: Vec<i64> = Vec::new();
    let mut i: usize = 0;
    assert(samples@.take(0) =~= Seq::empty());
    while i < samples.len()
        invariant
            i <= samples@.len(),
            times@ == valid_times(samples@.take(i as int)),
        decreases samples@.len() - i,
    {
        proof {
            lemma_valid_times_step(samples@, i as int);
        }
        let sample = samples[i];
        if sample.ft_us >= 0 && sample.ft_us < i64::MAX {
            times.push(sample.ft_us);
        }
        i = i + 1;
    }
    assert(samples@.take(i as int) =~= samples@);
    times
}

/// Rate, median and 99th percentile over a window. Fewer than two valid samples give
/// zeros.
pub fn compute_side_stats(samples: &VecDeque<Sample>) -> (r: (i64, i64, i64))
    ensures
        r.0 == figures(valid_times(samples@)).0,
        r.1 == figures(valid_times(samples@)).1,
        r.2 == figures(valid_times(samples@)).2,
{
    let times = collect_valid(samples);
    times_figures(&times)
}

/// How many samples at the front of a window have left it: those before `cutoff`, and
/// those beyond the size of the window.
pub open spec fn stale(s: Seq<Sample>, cutoff: int) -> nat
    decreases s.len(),
{
    if s.len() > 0 && (s[0].t_qpc < cutoff || s.len() > MAX_QUEUE_SAMPLES) {
        1 + stale(s.drop_first(), cutoff)
    } else {
        0
    }
}

/// Samples in the order in which they were presented.
pub open spec fn in_time_order(s: Seq<Sample>) -> bool {
    forall|i: int, j: int| 0 <= i <= j < s.len() ==> s[i].t_qpc <= s[j].t_qpc
}

/// The first instant of the window that ends at `t`.
pub open spec fn window_start(t: int, freq: int) -> int {
    t - HISTORY_SECONDS * freq
}

/// A window keeps exactly the samples of its period, and of those the newest as many
/// as it has room for; its newest sample always stays.
pub proof fn law_window_keeps_its_period(s: Seq<Sample>, cutoff: int)
    requires
        in_time_order(s),
        s.len() > 0,
        s.last().t_qpc >= cutoff,
    ensures
        ({
            let k = stale(s, cutoff);
            &&& k < s.len()
            &&& s.len() - k <= MAX_QUEUE_SAMPLES
            &&& forall|i: int| k <= i < s.len() ==> s[i].t_qpc >= cutoff
            &&& forall|i: int|
                0 <= i < k ==> s[i].t_qpc < cutoff || s.len() - i > MAX_QUEUE_SAMPLES
        }),
    decreases s.len(),
{
    if s[0].t_qpc < cutoff || s.len() > MAX_QUEUE_SAMPLES {
        let rest = s.drop_first();
        assert(rest.len() > 0);
        assert(rest.last() == s.last());
        law_window_keeps_its_period(rest, cutoff);
        let k = stale(s, cutoff);
        assert forall|i: int| k <= i < s.len() implies s[i].t_qpc >= cutoff by {
            assert(s[i] == rest[i - 1]);
        }
        assert forall|i: int| 0 <= i < k implies s[i].t_qpc < cutoff || s.len() - i
            > MAX_QUEUE_SAMPLES by {
            if i > 0 {
                assert(s[i] == rest[i - 1]);
            }
        }
    }
}

/// Drops the samples that have left the window; returns how many.
fn trim_window(samples: &mut VecDeque<Sample>, cutoff: i128) -> (k: usize)
    ensures
        k == stale(old(samples)@, cutoff as int),
        k <= old(samples)@.len(),
        final(samples)@ == old(samples)@.skip(k as int),
{
    let ghost all = samples@;
    let len: usize = samples.len();
    let mut k: usize = 0;
    assert(all.skip(0) =~= all);
    while samples.len() > 0 && (samples[0].t_qpc as i128) < cutoff || samples.len()
        > MAX_QUEUE_SAMPLES
        invariant
            k <= all.len() == len,
            samples@ == all.skip(k as int),
            stale(all, cutoff as int) == k + stale(samples@, cutoff as int),
        decreases samples@.len(),
    {
        let ghost before = samples@;
        let _ = samples.pop_front();
        assert(samples@ =~= before.drop_first());
        assert(samples@ =~= all.skip(k + 1));
        k = k + 1;
    }
    k
}

/// Drops `k` values from the front.
fn drop_front(values: &mut VecDeque<i64>, k: usize)
    requires
        k <= old(values)@.len(),
    ensures
        final(values)@ == old(values)@.skip(k as int),
{
    let ghost all = values@;
    let mut i: usize = 0;
    assert(all.skip(0) =~= all);
    while i < k
        invariant
            i <= k <= all.len(),
            values@ == all.skip(i as int),
        decreases k - i,
    {
        let _ = values.pop_front();
        assert(values@ =~= all.skip(i + 1));
        i = i + 1;
    }
}

/// The contents of a [`SideBucket`].
#[verifier::ext_equal]
pub struct BucketModel {
    pub samples: Seq<Sample>,
    /// Duration of each sample's present call.
    pub holds: Seq<i64>,
    /// Delay applied after each sample's present call.
    pub waits: Seq<i64>,
    pub total: int,
}

impl BucketModel {
    pub open spec fn empty() -> BucketModel {
        BucketModel {
            samples: Seq::empty(),
            holds: Seq::empty(),
            waits: Seq::empty(),
            total: 0,
        }
    }

    pub open spec fn wf(self) -> bool {
        &&& self.holds.len() == self.samples.len()
        &&& self.waits.len() == self.samples.len()
        &&& self.samples.len() <= MAX_QUEUE_SAMPLES
        &&& in_time_order(self.samples)
        &&& self.total <= u64::MAX
    }

    /// The bucket that a sample at `t` is added to: a clock that went backwards
    /// starts it anew.
    pub open spec fn base(self, t: i64) -> BucketModel {
        if self.samples.len() > 0 && t < self.samples.last().t_qpc {
            BucketModel { total: self.total, ..BucketModel::empty() }
        } else {
            self
        }
    }

    pub open spec fn pushed(self, freq: int, sample: Sample, hold: i64, wait: i64) -> BucketModel {
        let base = self.base(sample.t_qpc);
        let samples = base.samples.push(sample);
        let k = stale(samples, window_start(sample.t_qpc as int, freq)) as int;
        BucketModel {
            samples: samples.skip(k),
            holds: base.holds.push(hold).skip(k),
            waits: base.waits.push(wait).skip(k),
            total: if self.total < u64::MAX {
                self.total + 1
            } else {
                self.total
            },
        }
    }
}

/// The samples of one limiter state. Its window ends at its own newest sample, so a
/// bucket that is not fed keeps the tail of its period.
#[derive(Debug)]
pub struct SideBucket {
    pub samples: VecDeque<Sample>,
    pub holds: VecDeque<i64>,
    pub waits: VecDeque<i64>,
    pub total: u64,
}

impl View for SideBucket {
    type V = BucketModel;

    open spec fn view(&self) -> BucketModel {
        BucketModel {
            samples: self.samples@,
            holds: self.holds@,
            waits: self.waits@,
            total: self.total as int,
        }
    }
}

/// A bucket holds as many present durations and delays as samples, in time order,
/// whatever is pushed to it.
pub proof fn law_bucket_stays_well_formed(
    m: BucketModel,
    freq: int,
    sample: Sample,
    hold: i64,
    wait: i64,
)
    requires
        m.wf(),
        freq > 0,
    ensures
        m.pushed(freq, sample, hold, wait).wf(),
        m.pushed(freq, sample, hold, wait).samples.len() > 0,
        m.pushed(freq, sample, hold, wait).samples.last() == sample,
        forall|i: int|
            0 <= i < m.pushed(freq, sample, hold, wait).samples.len()
                ==> sample.t_qpc - HISTORY_SECONDS * freq <= #[trigger] m.pushed(
                freq,
                sample,
                hold,
                wait,
            ).samples[i].t_qpc <= sample.t_qpc,
{
    let samples = m.base(sample.t_qpc).samples.push(sample);
    let cutoff = window_start(sample.t_qpc as int, freq);
    assert(in_time_order(samples)) by {
        assert forall|i: int, j: int| 0 <= i <= j < samples.len() implies samples[i].t_qpc
            <= samples[j].t_qpc by {
            if j == samples.len() - 1 && i < j {
                let base = m.base(sample.t_qpc).samples;
                assert(base[i].t_qpc <= base[base.len() - 1].t_qpc);
            }
        }
    }
    assert(cutoff <= sample.t_qpc) by (nonlinear_arith)
        requires
            cutoff == sample.t_qpc - HISTORY_SECONDS * freq,
            freq > 0,
            HISTORY_SECONDS == 10,
    ;
    law_window_keeps_its_period(samples, cutoff);
}

impl SideBucket {
    pub fn new() -> (bucket: SideBucket)
        ensures
            bucket@ == BucketModel::empty(),
            bucket@.wf(),
    {
        let bucket = SideBucket {
            samples: VecDeque::new(),
            holds: VecDeque::new(),
            waits: VecDeque::new(),
            total: 0,
        };
        assert(bucket@ =~= BucketModel::empty());
        bucket
    }

    /// Adds a frame with the duration of its present call and the delay after it.
    pub fn push(&mut self, freq: i64, sample: Sample, hold_us: i64, wait_us: i64)
        requires
            old(self)@.wf(),
            freq > 0,
        ensures
            final(self)@ == old(self)@.pushed(freq as int, sample, hold_us, wait_us),
            final(self)@.wf(),
    {
        if self.samples.len() > 0 && sample.t_qpc < self.samples[self.samples.len() - 1].t_qpc {
            self.samples.clear();
            self.holds.clear();
            self.waits.clear();
        }
        let ghost base = old(self)@.base(sample.t_qpc);
        assert(self.samples@ =~= base.samples);
        assert(self.holds@ =~= base.holds);
        assert(self.waits@ =~= base.waits);
        self.samples.push_back(sample);
        self.holds.push_back(hold_us);
        self.waits.push_back(wait_us);
        if self.total < u64::MAX {
            self.total = self.total + 1;
        }
        let cutoff: i128 = sample.t_qpc as i128 - HISTORY_SECONDS as i128 * freq as i128;
        let k: usize = trim_window(&mut self.samples, cutoff);
        drop_front(&mut self.holds, k);
        drop_front(&mut self.waits, k);
        proof {
            law_bucket_stays_well_formed(old(self)@, freq as int, sample, hold_us, wait_us);
        }
    }
}

fn values_of(values: &VecDeque<i64>) -> (out: Vec<i64>)
    ensures
        out@ == values@,
{
    let mut out: Vec<i64> = Vec::new();
    let mut i: usize = 0;
    while i < values.len()
        invariant
            i <= values@.len(),
            out@ == values@.take(i as int),
        decreases values@.len() - i,
    {
        out.push(values[i]);
        assert(out@ =~= values@.take(i + 1));
        i = i + 1;
    }
    assert(values@.take(i as int) =~= values@);
    out
}

/// A copy of a window.
pub fn samples_of(samples: &VecDeque<Sample>) -> (out: VecDeque<Sample>)
    ensures
        out@ == samples@,
{
    let mut out: VecDeque<Sample> = VecDeque::new();
    let mut i: usize = 0;
    while i < samples.len()
        invariant
            i <= samples@.len(),
            out@ == samples@.take(i as int),
        decreases samples@.len() - i,
    {
        out.push_back(samples[i]);
        assert(out@ =~= samples@.take(i + 1));
        i = i + 1;
    }
    assert(samples@.take(i as int) =~= samples@);
    out
}

/// Published statistics of one limiter state.
#[derive(Debug)]
pub struct SideStats {
    pub samples: VecDeque<Sample>,
    pub fps: i64,
    pub p50_us: i64,
    pub p99_us: i64,
    /// Frames seen in this state, not only those in the window.
    pub total: u64,
    /// Median duration of the present call; the limiter leaves it alone.
    pub hold_p50_us: i64,
    /// Median delay applied to the start of the next frame.
    pub wait_p50_us: i64,
    /// Present durations and delays were measured.
    pub has_timing: bool,
}

impl Default for SideStats {
    fn default() -> (stats: SideStats)
        ensures
            stats.is_blank(),
    {
        SideStats {
            samples: VecDeque::new(),
            fps: 0,
            p50_us: 0,
            p99_us: 0,
            total: 0,
            hold_p50_us: 0,
            wait_p50_us: 0,
            has_timing: false,
        }
    }
}

impl SideStats {
    /// Nothing was published.
    pub open spec fn is_blank(&self) -> bool {
        &&& self.samples@ == Seq::<Sample>::empty()
        &&& self.fps == 0
        &&& self.p50_us == 0
        &&& self.p99_us == 0
        &&& self.total == 0
        &&& self.hold_p50_us == 0
        &&& self.wait_p50_us == 0
        &&& !self.has_timing
    }

    /// The statistics of a bucket.
    pub open spec fn publishes(&self, m: BucketModel) -> bool {
        let (fps, p50, p99) = figures(valid_times(m.samples));
        &&& self.samples@ == m.samples
        &&& self.fps == fps
        &&& self.p50_us == p50
        &&& self.p99_us == p99
        &&& self.total == m.total
        &&& self.hold_p50_us == stats::median_of(m.holds)
        &&& self.wait_p50_us == stats::median_of(m.waits)
        &&& self.has_timing
    }
}

impl SideBucket {
    pub fn publish(&self) -> (side: SideStats)
        ensures
            side.publishes(self@),
    {
        let (fps, p50, p99) = compute_side_stats(&self.samples);
        SideStats {
            samples: samples_of(&self.samples),
            fps,
            p50_us: p50,
            p99_us: p99,
            total: self.total,
            hold_p50_us: p50_of(&values_of(&self.holds)),
            wait_p50_us: p50_of(&values_of(&self.waits)),
            has_timing: true,
        }
    }
}

/// Published statistics of a game.
#[derive(Debug)]
pub struct LiveStats {
    pub samples: VecDeque<Sample>,
    pub fps: i64,
    pub p50_us: i64,
    pub p99_us: i64,
    pub late: u64,
    pub bypass: u64,
    pub total: u64,
    /// While the limiter was off.
    pub off: SideStats,
    /// While the limiter was on.
    pub on: SideStats,
}

impl LiveStats {
    /// Nothing was measured yet.
    pub open spec fn is_blank(&self) -> bool {
        &&& self.samples@ == Seq::<Sample>::empty()
        &&& self.fps == 0
        &&& self.p50_us == 0
        &&& self.p99_us == 0
        &&& self.late == 0
        &&& self.bypass == 0
        &&& self.total == 0
        &&& self.off.is_blank()
        &&& self.on.is_blank()
    }
}

impl Default for LiveStats {
    fn default() -> (stats: LiveStats)
        ensures
            stats.is_blank(),
    {
        LiveStats {
            samples: VecDeque::new(),
            fps: 0,
            p50_us: 0,
            p99_us: 0,
            late: 0,
            bypass: 0,
            total: 0,
            off: SideStats::default(),
            on: SideStats::default(),
        }
    }
}

/// What a telemetry record says about a frame, given the present call before it.
pub struct Measured {
    pub sample: Sample,
    pub hold_us: i64,
    pub wait_us: i64,
}

/// The frame that a record completes. The time since the present call before it has to
/// be positive and below one second: anything else is a gap, not a frame time.
pub open spec fn measured(prev: i64, f: TelemetryFrame, freq: int) -> Option<Measured> {
    let ticks = f.present_start_qpc - prev;
    if 0 < ticks < freq {
        Some(
            Measured {
                sample: Sample {
                    t_qpc: f.present_start_qpc,
                    ft_us: pacer::ticks_to_us(ticks, freq) as i64,
                },
                hold_us: fixed::sat64(
                    pacer::ticks_to_us(f.present_end_qpc - f.present_start_qpc, freq),
                ) as i64,
                wait_us: fixed::sat64(
                    pacer::ticks_to_us(
                        pacer::later_of(f.release_qpc - f.present_end_qpc, 0),
                        freq,
                    ),
                ) as i64,
            },
        )
    } else {
        None
    }
}

fn measure(prev: i64, f: &TelemetryFrame, freq: i64) -> (m: Option<Measured>)
    requires
        freq > 0,
    ensures
        m == measured(prev, *f, freq as int),
{
    let ticks: i128 = f.present_start_qpc as i128 - prev as i128;
    if ticks <= 0 || ticks >= freq as i128 {
        return None;
    }
    let ft: i128 = wide_qpc_to_us(ticks, freq);
    proof {
        assert(0 * freq <= ticks * SECOND_US <= SECOND_US * freq) by (nonlinear_arith)
            requires
                0 < ticks < freq,
                SECOND_US == 1_000_000_000_000,
        ;
        fixed::lemma_round_between(ticks * SECOND_US, freq as int, 0, SECOND_US as int);
    }
    let waited: i128 = f.release_qpc as i128 - f.present_end_qpc as i128;
    Some(
        Measured {
            sample: Sample { t_qpc: f.present_start_qpc, ft_us: ft as i64 },
            hold_us: clamp_i64(
                wide_qpc_to_us(f.present_end_qpc as i128 - f.present_start_qpc as i128, freq),
            ),
            wait_us: clamp_i64(wide_qpc_to_us(if waited >= 0 { waited } else { 0 }, freq)),
        },
    )
}

/// The contents of a [`TelemetryFeed`].
#[verifier::ext_equal]
pub struct FeedModel {
    pub freq: int,
    pub last_present: Option<i64>,
    pub late: int,
    pub bypass: int,
    pub total: int,
    pub samples: Seq<Sample>,
    pub on: BucketModel,
    pub off: BucketModel,
}

pub open spec fn counted(n: int, hit: bool) -> int {
    if hit && n < u64::MAX {
        n + 1
    } else {
        n
    }
}

/// Counts a hit, up to the largest number that can be counted to.
pub fn count(n: u64, hit: bool) -> (r: u64)
    ensures
        r == counted(n as int, hit),
{
    if hit && n < u64::MAX { n + 1 } else { n }
}

/// Adds a sample to the graph; a clock that went backwards starts the graph anew.
pub open spec fn graphed(s: Seq<Sample>, sample: Sample) -> Seq<Sample> {
    if s.len() > 0 && sample.t_qpc < s.last().t_qpc {
        seq![sample]
    } else {
        s.push(sample)
    }
}

impl FeedModel {
    pub open spec fn wf(self) -> bool {
        &&& self.freq > 0
        &&& self.on.wf()
        &&& self.off.wf()
    }

    /// The feed after one record.
    pub open spec fn after(self, f: TelemetryFrame, limiter_on: bool) -> FeedModel {
        let found = match self.last_present {
            Some(prev) => measured(prev, f, self.freq),
            None => None,
        };
        let counted_feed = FeedModel {
            last_present: Some(f.present_start_qpc),
            total: counted(self.total, true),
            late: counted(self.late, f.flags & TelemetryFrame::FLAG_LATE != 0),
            bypass: counted(self.bypass, f.flags & TelemetryFrame::FLAG_BYPASS != 0),
            ..self
        };
        match found {
            None => counted_feed,
            Some(m) => FeedModel {
                samples: graphed(self.samples, m.sample),
                on: if limiter_on {
                    self.on.pushed(self.freq, m.sample, m.hold_us, m.wait_us)
                } else {
                    self.on
                },
                off: if limiter_on {
                    self.off
                } else {
                    self.off.pushed(self.freq, m.sample, m.hold_us, m.wait_us)
                },
                ..counted_feed
            },
        }
    }

    /// The feed after a series of records.
    pub open spec fn after_all(self, frames: Seq<TelemetryFrame>, limiter_on: bool) -> FeedModel
        decreases frames.len(),
    {
        if frames.len() == 0 {
            self
        } else {
            self.after_all(frames.drop_last(), limiter_on).after(frames.last(), limiter_on)
        }
    }

    /// The feed with its graph cut to the window that ends at its newest sample.
    pub open spec fn trimmed(self) -> FeedModel {
        if self.samples.len() == 0 {
            self
        } else {
            let cutoff = window_start(self.samples.last().t_qpc as int, self.freq);
            FeedModel {
                samples: self.samples.skip(stale(self.samples, cutoff) as int),
                ..self
            }
        }
    }
}

/// Turns telemetry records into statistics.
#[derive(Debug)]
pub struct TelemetryFeed {
    pub freq: i64,
    pub last_present: Option<i64>,
    pub late: u64,
    pub bypass: u64,
    pub total: u64,
    pub samples: VecDeque<Sample>,
    pub on: SideBucket,
    pub off: SideBucket,
}

impl View for TelemetryFeed {
    type V = FeedModel;

    open spec fn view(&self) -> FeedModel {
        FeedModel {
            freq: self.freq as int,
            last_present: self.last_present,
            late: self.late as int,
            bypass: self.bypass as int,
            total: self.total as int,
            samples: self.samples@,
            on: self.on@,
            off: self.off@,
        }
    }
}

impl TelemetryFeed {
    pub fn new(reported_freq: i64) -> (feed: TelemetryFeed)
        ensures
            feed@ == (FeedModel {
                freq: if reported_freq <= 0 {
                    DEFAULT_FREQUENCY as int
                } else {
                    reported_freq as int
                },
                last_present: None,
                late: 0,
                bypass: 0,
                total: 0,
                samples: Seq::empty(),
                on: BucketModel::empty(),
                off: BucketModel::empty(),
            }),
            feed@.wf(),
    {
        let feed = TelemetryFeed {
            freq: working_frequency(reported_freq),
            last_present: None,
            late: 0,
            bypass: 0,
            total: 0,
            samples: VecDeque::new(),
            on: SideBucket::new(),
            off: SideBucket::new(),
        };
        assert(feed@.samples =~= Seq::empty());
        feed
    }

    /// Takes one record.
    pub fn ingest(&mut self, f: &TelemetryFrame, limiter_on: bool)
        requires
            old(self)@.wf(),
        ensures
            final(self)@ == old(self)@.after(*f, limiter_on),
            final(self)@.wf(),
    {
        let found = match self.last_present {
            Some(prev) => measure(prev, f, self.freq),
            None => None,
        };
        match found {
            None => {},
            Some(m) => {
                if self.samples.len() > 0 && m.sample.t_qpc < self.samples[self.samples.len()
                    - 1].t_qpc {
                    self.samples.clear();
                }
                self.samples.push_back(m.sample);
                assert(self.samples@ =~= graphed(old(self).samples@, m.sample));
                if limiter_on {
                    self.on.push(self.freq, m.sample, m.hold_us, m.wait_us);
                } else {
                    self.off.push(self.freq, m.sample, m.hold_us, m.wait_us);
                }
            },
        }
        self.last_present = Some(f.present_start_qpc);
        self.total = count(self.total, true);
        self.late = count(self.late, f.flags & TelemetryFrame::FLAG_LATE != 0);
        self.bypass = count(self.bypass, f.flags & TelemetryFrame::FLAG_BYPASS != 0);
    }

    /// Takes the first `n` records of a batch, then cuts the graph to its window.
    pub fn ingest_batch(&mut self, frames: &Vec<TelemetryFrame>, n: usize, limiter_on: bool)
        requires
            old(self)@.wf(),
            n <= frames@.len(),
        ensures
            final(self)@ == old(self)@.after_all(frames@.take(n as int), limiter_on).trimmed(),
            final(self)@.wf(),
    {
        let mut i: usize = 0;
        assert(frames@.take(0) =~= Seq::empty());
        while i < n
            invariant
                i <= n <= frames@.len(),
                self@ == old(self)@.after_all(frames@.take(i as int), limiter_on),
                self@.wf(),
            decreases n - i,
        {
            self.ingest(&frames[i], limiter_on);
            assert(frames@.take(i + 1).drop_last() =~= frames@.take(i as int));
            i = i + 1;
        }
        if self.samples.len() > 0 {
            let newest: i64 = self.samples[self.samples.len() - 1].t_qpc;
            let cutoff: i128 = newest as i128 - HISTORY_SECONDS as i128 * self.freq as i128;
            let _ = trim_window(&mut self.samples, cutoff);
        }
    }
}

/// Frame times of the last second before `now`, oldest first.
pub open spec fn recent_times(s: Seq<Sample>, now: int, freq: int) -> Seq<i64>
    decreases s.len(),
{
    if s.len() == 0 {
        Seq::empty()
    } else if now - s.last().t_qpc <= freq {
        recent_times(s.drop_last(), now, freq).push(s.last().ft_us)
    } else {
        recent_times(s.drop_last(), now, freq)
    }
}

/// The headline figures: rate, the upper median and the value above 99 in 100 of the
/// others; zeros for fewer than two frame times.
pub open spec fn headline(times: Seq<i64>) -> (int, i64, i64) {
    if times.len() < 2 {
        (0, 0, 0)
    } else {
        let n = times.len() as int;
        (
            rate_of(n, stats::sum(times)),
            stats::ascending(times)[n / 2],
            stats::ascending(times)[n * 99 / 100],
        )
    }
}

proof fn lemma_recent_step(s: Seq<Sample>, i: int, now: int, freq: int)
    requires
        0 <= i < s.len(),
    ensures
        recent_times(s.take(i + 1), now, freq) == if now - s[i].t_qpc <= freq {
            recent_times(s.take(i), now, freq).push(s[i].ft_us)
        } else {
            recent_times(s.take(i), now, freq)
        },
{
    assert(s.take(i + 1).drop_last() =~= s.take(i));
}

impl LiveStats {
    /// The statistics of a feed at the instant `now`.
    pub open spec fn publishes(&self, m: FeedModel, now: int) -> bool {
        let (fps, p50, p99) = headline(recent_times(m.samples, now, m.freq));
        &&& self.samples@ == m.samples
        &&& self.fps == fps
        &&& self.p50_us == p50
        &&& self.p99_us == p99
        &&& self.late == m.late
        &&& self.bypass == m.bypass
        &&& self.total == m.total
        &&& self.on.publishes(m.on)
        &&& self.off.publishes(m.off)
    }
}

impl TelemetryFeed {
    fn collect_recent(&self, now: i64) -> (times: Vec<i64>)
        ensures
            times@ == recent_times(self.samples@, now as int, self.freq as int),
    {
        let mut times: Vec<i64> = Vec::new();
        let mut i: usize = 0;
        assert(self.samples@.take(0) =~= Seq::empty());
        while i < self.samples.len()
            invariant
                i <= self.samples@.len(),
                times@ == recent_times(
                    self.samples@.take(i as int),
                    now as int,
                    self.freq as int,
                ),
            decreases self.samples@.len() - i,
        {
            proof {
                lemma_recent_step(self.samples@, i as int, now as int, self.freq as int);
            }
            let sample = self.samples[i];
            if now as i128 - sample.t_qpc as i128 <= self.freq as i128 {
                times.push(sample.ft_us);
            }
            i = i + 1;
        }
        assert(self.samples@.take(i as int) =~= self.samples@);
        times
    }

    /// The statistics at the instant `now`.
    pub fn publish(&self, now: i64) -> (stats: LiveStats)
        ensures
            stats.publishes(self@, now as int),
    {
        let times = self.collect_recent(now);
        let n: usize = times.len();
        let (fps, p50, p99): (i64, i64, i64) = if n < 2 {
            (0, 0, 0)
        } else {
            let in_order = sorted(&times);
            let high: usize = (n as u128 * 99 / 100) as usize;
            (event_rate(n, sum_of(&times)), in_order[n / 2], in_order[high])
        };
        LiveStats {
            samples: samples_of(&self.samples),
            fps,
            p50_us: p50,
            p99_us: p99,
            late: self.late,
            bypass: self.bypass,
            total: self.total,
            off: self.off.publish(),
            on: self.on.publish(),
        }
    }
}

/// What the panel shares with the thread that reads the telemetry.
#[derive(Debug)]
pub struct SharedState {
    pub stats: LiveStats,
    /// The attached game; zero is none.
    pub attached_pid: u32,
    pub limiter_on: bool,
}

impl SharedState {
    pub fn new() -> (s: SharedState)
        ensures
            s.attached_pid == 0,
            !s.limiter_on,
            s.stats.is_blank(),
    {
        SharedState { stats: LiveStats::default(), attached_pid: 0, limiter_on: false }
    }
}

/// The median of a bucket or window is never above its 99th percentile.
pub proof fn law_p50_never_above_p99(s: Seq<Sample>)
    ensures
        figures(valid_times(s)).1 <= figures(valid_times(s)).2,
{
    stats::law_percentiles_are_ordered(valid_times(s), 500_000, 990_000);
}

/// A bucket that is not fed is frozen: frames of the other limiter state leave it
/// alone, whatever time passes.
pub proof fn law_inactive_bucket_freezes(m: FeedModel, frames: Seq<TelemetryFrame>)
    ensures
        m.after_all(frames, true).off == m.off,
        m.after_all(frames, false).on == m.on,
    decreases frames.len(),
{
    if frames.len() > 0 {
        law_inactive_bucket_freezes(m, frames.drop_last());
    }
}

} // verus!
