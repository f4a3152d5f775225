//! What holds of waits and of the display's grid as a whole.

use vstd::prelude::*;

use crate::fixed;
use crate::timing;
use crate::timing::SleepPlan;

verus! {

/// A spin ends at its target, or a tenth of a second from now where that comes first.
pub proof fn law_spin_ends_within_a_tenth_of_a_second(now: i64, freq: i64, target: i64)
    requires
        freq > 0,
    ensures
        ({
            let end = timing::spin_end(now as int, freq as int, target as int);
            let last = now + freq / 10;
            &&& target <= last ==> end == target
            &&& target > last && last <= i64::MAX ==> end == last
            &&& target > last && last <= i64::MAX ==> 10 * (end - now) <= freq < 10 * (end - now
                + 1)
        }),
{
}

/// The timer covers all of a wait but its last 400 microseconds, to a tenth of one, where
/// the wait is longer than 600; a shorter wait is spun. It is waited for no longer than two
/// to three milliseconds beyond that. Without a timer every wait is spun.
pub proof fn law_timer_leaves_the_last_part_to_the_spin(now: i64, freq: i64, target: i64)
    requires
        freq > 0,
    ensures
        timing::sleep_plan(false, now as int, freq as int, target as int) == SleepPlan::Spin,
        ({
            let wait = target - now;
            let plan = timing::sleep_plan(true, now as int, freq as int, target as int);
            &&& plan == SleepPlan::Done <==> wait <= 0
            &&& plan is Kernel <==> 1_000_000 * wait > 600 * freq
            &&& plan == SleepPlan::Spin <==> 0 < wait && 1_000_000 * wait <= 600 * freq
            &&& plan matches SleepPlan::Kernel { due_100ns, wait_ms } ==> {
                let left = 10_000_000 * wait - 4_000 * freq;
                &&& due_100ns > -i64::MAX ==> 0 <= left + due_100ns * freq < freq
                &&& wait_ms < u32::MAX ==> {
                    &&& 10_000 * ((wait_ms - 2) * freq) >= left
                    &&& 10_000 * ((wait_ms - 3) * freq) < left
                }
            }
        }),
{
    let wait = target - now;
    if 1_000_000 * wait > 600 * freq {
        let f = freq as int;
        let part = timing::kernel_part(now as int, f, target as int);
        let units = (part * 10) / f;
        vstd::arithmetic::div_mod::lemma_fundamental_div_mod(part * 10, f);
        vstd::arithmetic::div_mod::lemma_mod_bound(part * 10, f);
        assert(units >= 0) by (nonlinear_arith)
            requires
                part * 10 == f * units + (part * 10) % f,
                (part * 10) % f < f,
                part >= 0,
                f > 0,
        ;
        assert((-units) * f == -(f * units)) by (nonlinear_arith);
        let b = 1000 * f;
        let q = (-part) / b;
        vstd::arithmetic::div_mod::lemma_fundamental_div_mod(-part, b);
        vstd::arithmetic::div_mod::lemma_mod_bound(-part, b);
        let c = -q;
        assert(c * b >= part && (c - 1) * b < part) by (nonlinear_arith)
            requires
                -part == b * q + (-part) % b,
                0 <= (-part) % b < b,
                c == -q,
        ;
        assert(c > 0) by (nonlinear_arith)
            requires
                c * b >= part,
                part > 0,
                b > 0,
        ;
        assert(c * b == 1000 * (c * f) && (c - 1) * b == 1000 * ((c - 1) * f)) by (nonlinear_arith)
            requires
                b == 1000 * f,
        ;
        let plan = timing::sleep_plan(true, now as int, f, target as int);
        assert(plan->due_100ns == -fixed::sat64(units));
    }
}

/// A wait that is short enough is left as it is, a longer one lasts as long as it may, to
/// less than a tick.
pub proof fn law_long_waits_are_cut_to_the_cap(now: i64, freq: i64, target: i64, max_us: i64)
    requires
        freq > 0,
        max_us >= 0,
    ensures
        ({
            let t = timing::capped(now as int, freq as int, target as int, max_us as int);
            let is_long = (target - now) * 1_000_000_000_000 > max_us * freq;
            &&& !is_long ==> t == target
            &&& is_long && t < i64::MAX ==> {
                &&& (t - now) * 1_000_000_000_000 <= max_us * freq
                &&& max_us * freq < (t + 1 - now) * 1_000_000_000_000
            }
        }),
{
    let m = max_us * freq;
    assert(m >= 0) by (nonlinear_arith)
        requires
            m == max_us * freq,
            max_us >= 0,
            freq > 0,
    ;
    vstd::arithmetic::div_mod::lemma_fundamental_div_mod(m, 1_000_000_000_000);
    vstd::arithmetic::div_mod::lemma_mod_bound(m, 1_000_000_000_000);
    vstd::arithmetic::div_mod::lemma_div_pos_is_pos(m, 1_000_000_000_000);
}

/// The compositor's figures are taken where it has seen a vblank and the rate, a fraction
/// of its two figures, is 10 Hz or more.
pub proof fn law_slow_displays_are_not_believed(vblank: u64, num: u32, den: u32)
    ensures
        vblank == 0 || den == 0 || num == 0 ==> !crate::vblank::is_plausible(vblank, num, den),
        vblank != 0 && den != 0 ==> (crate::vblank::is_plausible(vblank, num, den) <==> num >= 10
            * den),
{
}

} // verus!
