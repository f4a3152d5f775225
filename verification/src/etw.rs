//! Telemetry without hooks: frame times from the kernel's present events.
//!
//! Event timestamps count units of 100 nanoseconds; the graph's instants are counter
//! ticks.

use std::collections::VecDeque;

use vstd::prelude::*;

use crate::live;
use crate::live::{compute_side_stats, LiveStats, Sample, SideStats, HISTORY_SECONDS};

verus! {

/// The kernel graphics provider.
pub const DXGKRNL_GUID: &'static str = "802ec45a-1e99-4b83-9966-6c1e23b8d574";

/// Figures are recomputed at most this often (20 ms).
pub const PUBLISH_NS: u64 = 20_000_000;

/// Events of the present family.
pub open spec fn is_present(id: u16) -> bool {
    id == 42 || id == 126 || id == 168 || id == 172 || id == 175 || id == 184
}

pub fn is_present_event(id: u16) -> (b: bool)
    ensures
        b == is_present(id),
{
    id == 42 || id == 126 || id == 168 || id == 172 || id == 175 || id == 184
}

/// Fixed-point microseconds between two event timestamps; zero where there was no
/// earlier one or it is not earlier.
pub open spec fn event_interval(last: u64, ts: u64) -> int {
    if last > 0 && ts > last {
        crate::fixed::sat64((ts - last) * 100_000)
    } else {
        0
    }
}

/// Fixed-point microseconds from the event timestamp `last` to `ts`.
pub fn frame_interval(last: u64, ts: u64) -> (us: i64)
    ensures
        us == event_interval(last, ts),
{
    if last > 0 && ts > last {
        crate::fixed::clamp_i64((ts - last) as i128 * 100_000)
    } else {
        0
    }
}

/// How many samples at the front of a graph lie before `cutoff`.
pub open spec fn expired(s: Seq<Sample>, cutoff: int) -> nat
    decreases s.len(),
{
    if s.len() > 0 && s[0].t_qpc < cutoff {
        1 + expired(s.drop_first(), cutoff)
    } else {
        0
    }
}

fn drop_expired(samples: &mut VecDeque<Sample>, cutoff: i128)
    ensures
        final(samples)@ == old(samples)@.skip(expired(old(samples)@, cutoff as int) as int),
{
    let ghost all = samples@;
    let len: usize = samples.len();
    let mut k: usize = 0;
    assert(all.skip(0) =~= all);
    while samples.len() > 0 && (samples[0].t_qpc as i128) < cutoff
        invariant
            k <= all.len() == len,
            samples@ == all.skip(k as int),
            expired(all, cutoff as int) == k + expired(samples@, cutoff as int),
        decreases samples@.len(),
    {
        let ghost before = samples@;
        let _ = samples.pop_front();
        assert(samples@ =~= before.drop_first());
        assert(samples@ =~= all.skip(k + 1));
        k = k + 1;
    }
}

/// Follows the present events of one process.
#[derive(Debug, Clone, Copy, PartialEq, Eq, Structural)]
pub struct EtwFeed {
    pub target_pid: u32,
    pub last_ts: u64,
    pub last_publish_ns: Option<u64>,
}

/// A present event, with the readings of the counter and of a nanosecond clock taken
/// when it arrived.
#[derive(Debug, Clone, Copy, PartialEq, Eq, Structural)]
pub struct PresentEvent {
    pub id: u16,
    pub pid: u32,
    pub timestamp: u64,
    pub now_qpc: i64,
    pub now_ns: u64,
}

impl EtwFeed {
    pub fn new(target_pid: u32) -> (feed: EtwFeed)
        ensures
            feed == (EtwFeed { target_pid, last_ts: 0, last_publish_ns: None }),
    {
        EtwFeed { target_pid, last_ts: 0, last_publish_ns: None }
    }

    /// The event is a present call of the followed process.
    pub open spec fn follows(self, e: PresentEvent) -> bool {
        is_present(e.id) && e.pid == self.target_pid
    }

    /// The figures are old enough to be recomputed.
    pub open spec fn is_due(self, now_ns: u64) -> bool {
        self.last_publish_ns is None || crate::gamepad::elapsed(now_ns, self.last_publish_ns->0)
            >= PUBLISH_NS
    }

    /// The graph after a frame was added at `now`.
    pub open spec fn graph(s: Seq<Sample>, now: i64, ft_us: int, freq: int) -> Seq<Sample> {
        let grown = s.push(Sample { t_qpc: now, ft_us: ft_us as i64 });
        grown.skip(expired(grown, now - HISTORY_SECONDS * freq) as int)
    }

    /// Takes an event, and adds the frame that it completes to `stats`. Everything that
    /// is observed this way belongs to the state in which the limiter is off.
    pub fn on_event(&mut self, stats: &mut LiveStats, e: PresentEvent, freq: i64)
        ensures
            !old(self).follows(e) ==> *final(self) == *old(self) && *final(stats) == *old(stats),
            old(self).follows(e) ==> {
                let ft = event_interval(old(self).last_ts, e.timestamp);
                let due = old(self).is_due(e.now_ns);
                let graph = EtwFeed::graph(old(stats).samples@, e.now_qpc, ft, freq as int);
                let (fps, p50, p99) = live::figures(live::valid_times(graph));
                &&& *final(self) == (EtwFeed {
                    last_ts: e.timestamp,
                    last_publish_ns: if due {
                        Some(e.now_ns)
                    } else {
                        old(self).last_publish_ns
                    },
                    ..*old(self)
                })
                &&& ft == 0 ==> *final(stats) == *old(stats)
                &&& ft > 0 ==> {
                    &&& final(stats).samples@ == graph
                    &&& final(stats).total == live::counted(old(stats).total as int, true)
                    &&& final(stats).late == old(stats).late
                    &&& final(stats).bypass == old(stats).bypass
                    &&& final(stats).on == old(stats).on
                    &&& !due ==> final(stats).off == old(stats).off && final(stats).fps == old(
                        stats,
                    ).fps && final(stats).p50_us == old(stats).p50_us && final(stats).p99_us == old(
                        stats,
                    ).p99_us
                    &&& due ==> {
                        &&& final(stats).fps == fps
                        &&& final(stats).p50_us == p50
                        &&& final(stats).p99_us == p99
                        &&& final(stats).off.samples@ == graph
                        &&& final(stats).off.fps == fps
                        &&& final(stats).off.p50_us == p50
                        &&& final(stats).off.p99_us == p99
                        &&& final(stats).off.total == final(stats).total
                        &&& final(stats).off.hold_p50_us == 0
                        &&& final(stats).off.wait_p50_us == 0
                        &&& !final(stats).off.has_timing
                    }
                }
            },
    {
        if !is_present_event(e.id) || e.pid != self.target_pid {
            return;
        }
        let ft: i64 = frame_interval(self.last_ts, e.timestamp);
        self.last_ts = e.timestamp;
        let due: bool = match self.last_publish_ns {
            None => true,
            Some(last) => e.now_ns >= last && e.now_ns - last >= PUBLISH_NS,
        };
        if due {
            self.last_publish_ns = Some(e.now_ns);
        }
        if ft <= 0 {
            return;
        }
        stats.samples.push_back(Sample { t_qpc: e.now_qpc, ft_us: ft });
        stats.total = live::count(stats.total, true);
        let cutoff: i128 = e.now_qpc as i128 - HISTORY_SECONDS as i128 * freq as i128;
        drop_expired(&mut stats.samples, cutoff);
        if due {
            let (fps, p50, p99) = compute_side_stats(&stats.samples);
            stats.fps = fps;
            stats.p50_us = p50;
            stats.p99_us = p99;
            stats.off = SideStats {
                samples: live::samples_of(&stats.samples),
                fps,
                p50_us: p50,
                p99_us: p99,
                total: stats.total,
                hold_p50_us: 0,
                wait_p50_us: 0,
                has_timing: false,
            };
        }
    }
}

} // verus!
