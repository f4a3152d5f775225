//! Per-second figures of a watched game.

use vstd::prelude::*;

use crate::fixed;
use crate::fixed::clamp_i64;
use crate::live;
use crate::live::event_rate;
use crate::live_laws;
use crate::live_laws::{is_rate, same_time};
use crate::pacer;
use crate::pacer::wide_qpc_to_us;
use crate::ranks;
use crate::ranks::{added_up, at_or_above, at_or_below, is_ranked};
use crate::stats;
use crate::stats::{percentile, sorted, sum_of};

verus! {

/// Figures over a number of present calls; durations are fixed-point microseconds.
#[derive(Debug, Clone, Copy, PartialEq, Eq, Structural)]
pub struct SecondStats {
    pub presents: usize,
    pub fps: i64,
    pub p50_us: i64,
    pub p99_us: i64,
    pub max_us: i64,
}

/// Times between successive present calls.
pub open spec fn intervals(starts: Seq<i64>, freq: int) -> Seq<i64> {
    Seq::new(
        if starts.len() == 0 {
            0
        } else {
            (starts.len() - 1) as nat
        },
        |i: int| fixed::sat64(pacer::ticks_to_us(starts[i + 1] - starts[i], freq)) as i64,
    )
}

/// The figures of a second; none for fewer than two present calls.
pub fn second_stats(present_starts: &Vec<i64>, freq: i64) -> (r: Option<SecondStats>)
    ensures
        r is Some == (present_starts@.len() >= 2),
        r is Some ==> {
            let diffs = intervals(present_starts@, freq as int);
            &&& (r->0).presents == present_starts@.len()
            &&& (r->0).fps == live::rate_of(diffs.len() as int, stats::sum(diffs))
            &&& (r->0).p50_us == stats::median_of(diffs)
            &&& (r->0).p99_us == stats::percentile_of(stats::ascending(diffs), 990_000)
            &&& (r->0).max_us == stats::ascending(diffs)[diffs.len() - 1]
            // Whatever the order: half of the intervals are on either side of the median, and
            // none is longer than the longest.
            &&& is_rate((r->0).fps as int, diffs.len() as int, added_up(diffs))
            &&& 2 * at_or_below(diffs, (r->0).p50_us) >= diffs.len() + 1
            &&& 2 * at_or_above(diffs, (r->0).p50_us) >= diffs.len()
            &&& exists|p: int|
                #![trigger is_ranked(diffs, (r->0).p99_us, p)]
                -50 < 100 * p - 99 * (diffs.len() - 1) <= 50 && is_ranked(diffs, (r->0).p99_us, p)
            &&& diffs.contains((r->0).max_us)
            &&& forall|i: int| 0 <= i < diffs.len() ==> #[trigger] diffs[i] <= (r->0).max_us
        },
{
    let n: usize = present_starts.len();
    if n < 2 {
        return None;
    }
    let mut diffs: Vec<i64> = Vec::new();
    let mut i: usize = 0;
    while i + 1 < n
        invariant
            n == present_starts@.len(),
            i + 1 <= n,
            diffs@ == intervals(present_starts@, freq as int).take(i as int),
        decreases n - i,
    {
        let ticks: i128 = present_starts[i + 1] as i128 - present_starts[i] as i128;
        diffs.push(clamp_i64(wide_qpc_to_us(ticks, freq)));
        assert(diffs@ =~= intervals(present_starts@, freq as int).take(i + 1));
        i = i + 1;
    }
    assert(diffs@ =~= intervals(present_starts@, freq as int));
    proof {
        lemma_figures(diffs@);
    }
    let in_order = sorted(&diffs);
    let found = SecondStats {
        presents: n,
        fps: event_rate(diffs.len(), sum_of(&diffs)),
        p50_us: percentile(&in_order, 500_000),
        p99_us: percentile(&in_order, 990_000),
        max_us: in_order[in_order.len() - 1],
    };
    proof {
        let p = choose|p: int|
            #![trigger is_ranked(diffs@, found.p99_us, p)]
            -50 < 100 * p - 99 * (diffs@.len() - 1) <= 50 && is_ranked(diffs@, found.p99_us, p);
        assert(is_ranked(diffs@, found.p99_us, p));
    }
    Some(found)
}

proof fn lemma_figures(diffs: Seq<i64>)
    requires
        diffs.len() > 0,
    ensures
        ({
            let n = diffs.len() as int;
            let p50 = stats::median_of(diffs);
            let p99 = stats::percentile_of(stats::ascending(diffs), 990_000);
            let most = stats::ascending(diffs)[n - 1];
            &&& is_rate(live::rate_of(n, stats::sum(diffs)), n, added_up(diffs))
            &&& 2 * at_or_below(diffs, p50) >= n + 1
            &&& 2 * at_or_above(diffs, p50) >= n
            &&& exists|p: int|
                #![trigger is_ranked(diffs, p99, p)]
                -50 < 100 * p - 99 * (n - 1) <= 50 && is_ranked(diffs, p99, p)
            &&& diffs.contains(most)
            &&& forall|i: int| 0 <= i < n ==> #[trigger] diffs[i] <= most
        }),
{
    let n = diffs.len() as int;
    let p99 = stats::percentile_of(stats::ascending(diffs), 990_000);
    ranks::lemma_sum_adds_up(diffs);
    live_laws::lemma_rate(n, stats::sum(diffs));
    ranks::law_median_halves_the_values(diffs);
    ranks::law_percentile_divides_the_values(diffs, 990_000);
    let p = choose|p: int|
        #![trigger is_ranked(diffs, p99, p)]
        {
            &&& 0 <= p < n
            &&& -fixed::ONE < 2 * (1_000_000 * p - (n - 1) * 990_000) <= fixed::ONE
            &&& is_ranked(diffs, p99, p)
        };
    assert(-50 < 100 * p - 99 * (n - 1) <= 50 && is_ranked(diffs, p99, p));
    let up = stats::ascending(diffs);
    stats::lemma_ascending_properties(diffs);
    assert(up.contains(up[n - 1]));
    assert forall|i: int| 0 <= i < n implies #[trigger] diffs[i] <= up[n - 1] by {
        assert(diffs.contains(diffs[i]));
        assert(up.contains(diffs[i]));
        let k = choose|k: int| 0 <= k < up.len() && up[k] == diffs[i];
        assert(up[k] <= up[n - 1]);
    }
}

/// An interval is the time between two successive present calls, and there is one less
/// than there are calls.
pub proof fn law_intervals_lie_between_the_calls(starts: Seq<i64>, freq: i64, i: int)
    requires
        freq > 0,
        0 <= i < starts.len() - 1,
    ensures
        ({
            let diffs = intervals(starts, freq as int);
            &&& diffs.len() == starts.len() - 1
            &&& i64::MIN < diffs[i] < i64::MAX ==> same_time(
                diffs[i] as int,
                starts[i + 1] - starts[i],
                freq as int,
            )
            &&& starts[i] <= starts[i + 1] ==> diffs[i] >= 0
        }),
{
    let t = (starts[i + 1] - starts[i]) * 1_000_000_000_000;
    let f = freq as int;
    fixed::lemma_nearest(t, f);
    if t >= 0 {
        assert(0 * f <= t <= t * f) by (nonlinear_arith)
            requires
                t >= 0,
                f >= 1,
        ;
        fixed::lemma_round_between(t, f, 0, t);
    }
}

} // verus!
