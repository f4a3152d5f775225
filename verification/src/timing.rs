//! High-precision waits: how much of a wait is left to a kernel timer and when the
//! final spin has to end. Instants are counter ticks.

use vstd::prelude::*;

use crate::fixed;
use crate::fixed::{clamp_i64, SECOND_US};

verus! {

/// A wait that is longer than this many microseconds starts with a kernel timer.
pub const KERNEL_WAIT_ABOVE_US: i128 = 600;

/// Microseconds that are left to the final spin.
pub const SPIN_TAIL_US: i128 = 400;

/// The instant at which a spin ends: the target, or a tenth of a second from now where
/// that is earlier. A spin never lasts longer.
pub open spec fn spin_end(now: int, freq: int, target: int) -> int {
    let cap = fixed::sat64(now + freq / 10);
    if cap < target {
        cap
    } else {
        target
    }
}

/// When a spin that starts at `now` and waits for `target_qpc` has to end.
pub fn spin_until(now: i64, freq: i64, target_qpc: i64) -> (deadline: i64)
    requires
        freq > 0,
    ensures
        deadline == spin_end(now as int, freq as int, target_qpc as int),
        deadline <= now + freq / 10,
{
    let cap: i64 = clamp_i64(now as i128 + (freq / 10) as i128);
    if cap < target_qpc { cap } else { target_qpc }
}

/// How a wait proceeds.
#[derive(Debug, Clone, Copy, PartialEq, Eq, Structural)]
pub enum SleepPlan {
    /// The target has passed.
    Done,
    /// Spin until the target.
    Spin,
    /// Arm the timer with the (negative, relative) due time in units of 100 ns, wait for
    /// it no longer than the given milliseconds, then spin until the target.
    Kernel { due_100ns: i64, wait_ms: u32 },
}

/// Ticks, times a million, that the kernel timer is to cover.
pub open spec fn kernel_part(now: int, freq: int, target: int) -> int {
    (target - now) * 1_000_000 - SPIN_TAIL_US * freq
}

/// How to wait until `target`.
pub open spec fn sleep_plan(timer_usable: bool, now: int, freq: int, target: int) -> SleepPlan {
    if !timer_usable {
        SleepPlan::Spin
    } else if target <= now {
        SleepPlan::Done
    } else if (target - now) * 1_000_000 > KERNEL_WAIT_ABOVE_US * freq {
        let part = kernel_part(now, freq, target);
        let ms = fixed::ceil_quot(part, 1000 * freq) + 2;
        SleepPlan::Kernel {
            due_100ns: -fixed::sat64((part * 10) / freq) as i64,
            wait_ms: (if ms > u32::MAX {
                u32::MAX as int
            } else {
                ms
            }) as u32,
        }
    } else {
        SleepPlan::Spin
    }
}

/// Plans a wait until `target_qpc`.
pub fn plan_sleep(timer_usable: bool, now: i64, freq: i64, target_qpc: i64) -> (plan: SleepPlan)
    requires
        freq > 0,
    ensures
        plan == sleep_plan(timer_usable, now as int, freq as int, target_qpc as int),
{
    if !timer_usable {
        return SleepPlan::Spin;
    }
    let remaining: i128 = target_qpc as i128 - now as i128;
    if remaining <= 0 {
        return SleepPlan::Done;
    }
    if remaining * 1_000_000 > KERNEL_WAIT_ABOVE_US * freq as i128 {
        let part: i128 = remaining * 1_000_000 - SPIN_TAIL_US * freq as i128;
        let units: i128 = fixed::floor_div(part * 10, freq as i128);
        let ms: i128 = fixed::ceil_div(part, 1000 * freq as i128);
        proof {
            lemma_quotients_are_positive(part as int, freq as int);
        }
        let ms: i128 = ms + 2;
        SleepPlan::Kernel {
            due_100ns: -clamp_i64(units),
            wait_ms: if ms > 0xffff_ffff { u32::MAX } else { ms as u32 },
        }
    } else {
        SleepPlan::Spin
    }
}

proof fn lemma_quotients_are_positive(part: int, freq: int)
    requires
        part > 0,
        freq > 0,
    ensures
        (part * 10) / freq >= 0,
        0 < fixed::ceil_quot(part, 1000 * freq) <= part,
{
    vstd::arithmetic::div_mod::lemma_div_pos_is_pos(part * 10, freq);
    let b = 1000 * freq;
    vstd::arithmetic::div_mod::lemma_fundamental_div_mod(-part, b);
    vstd::arithmetic::div_mod::lemma_mod_bound(-part, b);
    let q = (-part) / b;
    let r = (-part) % b;
    assert(0 < -q <= part) by (nonlinear_arith)
        requires
            -part == b * q + r,
            0 <= r < b,
            part > 0,
    ;
}

/// Ticks that `max_us` fixed-point microseconds take, towards zero.
pub open spec fn cap_ticks(max_us: int, freq: int) -> int {
    if max_us >= 0 {
        (max_us * freq) / (SECOND_US as int)
    } else {
        -(((-max_us) * freq) / (SECOND_US as int))
    }
}

/// The instant to wait for where a wait may last `max_us` fixed-point microseconds at
/// most: a broken schedule must not send the game to sleep for seconds.
pub open spec fn capped(now: int, freq: int, target: int, max_us: int) -> int {
    if (target - now) * SECOND_US > max_us * freq {
        fixed::sat64(now + cap_ticks(max_us, freq))
    } else {
        target
    }
}

/// The instant to wait for, no later than `max_us` from now.
pub fn capped_target(now: i64, freq: i64, target_qpc: i64, max_us: i64) -> (target: i64)
    requires
        freq > 0,
    ensures
        target == capped(now as int, freq as int, target_qpc as int, max_us as int),
{
    let remaining: i128 = target_qpc as i128 - now as i128;
    proof {
        let m = max_us as int;
        let f = freq as int;
        assert(-0x4000_0000_0000_0000_0000_0000_0000_0000 <= m * f
            <= 0x4000_0000_0000_0000_0000_0000_0000_0000 && (m >= 0 ==> m * f >= 0) && (m < 0
            ==> m * f <= 0) && (-m) * f == -(m * f)) by (nonlinear_arith)
            requires
                -0x8000_0000_0000_0000 <= m <= 0x8000_0000_0000_0000,
                0 < f <= 0x8000_0000_0000_0000,
        ;
    }
    let limit: i128 = max_us as i128 * freq as i128;
    if remaining * SECOND_US > limit {
        let ticks: i128 = if max_us >= 0 { limit / SECOND_US } else { -((-limit) / SECOND_US) };
        clamp_i64(now as i128 + ticks)
    } else {
        target_qpc
    }
}

/// A capped wait ends no later than asked for and no later than the cap allows.
pub proof fn law_cap_bounds_the_wait(now: i64, freq: i64, target: i64, max_us: i64)
    requires
        freq > 0,
        max_us >= 0,
    ensures
        ({
            let t = capped(now as int, freq as int, target as int, max_us as int);
            &&& (t - now) * SECOND_US <= max_us * freq
            &&& t <= target
        }),
{
    let m = max_us * freq;
    let ticks = m / (SECOND_US as int);
    assert(m >= 0) by (nonlinear_arith)
        requires
            m == max_us * freq,
            max_us >= 0,
            freq > 0,
    ;
    vstd::arithmetic::div_mod::lemma_fundamental_div_mod(m, SECOND_US as int);
    vstd::arithmetic::div_mod::lemma_mod_bound(m, SECOND_US as int);
    vstd::arithmetic::div_mod::lemma_div_pos_is_pos(m, SECOND_US as int);
}

/// A cap of nothing or less, or a target that has passed, means no wait at all.
pub proof fn law_no_wait_without_time(now: i64, freq: i64, target: i64, max_us: i64)
    requires
        freq > 0,
    ensures
        max_us <= 0 ==> capped(now as int, freq as int, target as int, max_us as int) <= now,
        target <= now ==> sleep_plan(true, now as int, freq as int, target as int)
            == SleepPlan::Done,
{
    let m = max_us as int;
    let f = freq as int;
    if m <= 0 {
        assert((-m) * f >= 0 && m * f <= 0) by (nonlinear_arith)
            requires
                m <= 0,
                f > 0,
        ;
        vstd::arithmetic::div_mod::lemma_div_pos_is_pos((-m) * f, SECOND_US as int);
        if m == 0 {
            assert(m * f == 0) by (nonlinear_arith)
                requires
                    m == 0,
            ;
        }
    }
}

/// The kernel timer is due before the target, so that the spin has the last word, and
/// the wait for it is bounded even if it never fires.
pub proof fn law_kernel_wait_ends_before_the_target(now: i64, freq: i64, target: i64)
    requires
        freq > 0,
        sleep_plan(true, now as int, freq as int, target as int) is Kernel,
    ensures
        ({
            let plan = sleep_plan(true, now as int, freq as int, target as int);
            let due = -plan->due_100ns;
            &&& due >= 0
            &&& due * freq <= (target - now) * 10_000_000 - 4_000 * freq
            &&& plan->wait_ms >= 2
        }),
{
    let part = kernel_part(now as int, freq as int, target as int);
    lemma_quotients_are_positive(part, freq as int);
    let q = (part * 10) / (freq as int);
    vstd::arithmetic::div_mod::lemma_fundamental_div_mod(part * 10, freq as int);
    vstd::arithmetic::div_mod::lemma_mod_bound(part * 10, freq as int);
    let due = fixed::sat64(q);
    assert(due * freq <= part * 10) by (nonlinear_arith)
        requires
            part * 10 == freq * q + (part * 10) % (freq as int),
            0 <= (part * 10) % (freq as int),
            0 <= due <= q,
            freq > 0,
    ;
}

} // verus!
