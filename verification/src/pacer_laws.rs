//! What holds of pacing as a whole.

use vstd::arithmetic::power::pow;
use vstd::prelude::*;

use crate::fixed;
use crate::fixed::{ONE, SECOND_US};
use crate::pacer;
use crate::pacer::{PacerConfig, PacerDecision, PacerMode, PacerModel, VBlankHint};

verus! {

/// No decision starts the next frame before the present call has returned, so the
/// frame that just finished is never held.
pub proof fn law_completed_frame_is_never_held(
    m: PacerModel,
    end: i64,
    hint: Option<VBlankHint>,
    d: PacerDecision,
)
    requires
        m.decides(end as int, hint, d),
    ensures
        d.wake_qpc >= end,
{
}

/// Without history, after a frame that is too short to be one, in bypass mode and
/// after a frame that consumed its whole budget, the limiter adds no delay.
pub proof fn law_limiter_steps_aside(
    m: PacerModel,
    end: i64,
    hint: Option<VBlankHint>,
    d: PacerDecision,
)
    requires
        m.decides(end as int, hint, d),
        m.freq > 0,
        ({
            ||| m.last_release == 0
            ||| m.is_short(end as int)
            ||| m.cfg.mode == PacerMode::Bypass
            ||| m.estimate(end as int).overloaded
        }),
    ensures
        d.wake_qpc == end,
        d.stats.sleep_us == 0,
        d.stats.bypass,
        m.bypasses(end as int, hint),
{
    assert(fixed::round_quot(0, m.freq) == 0) by {
        vstd::arithmetic::div_mod::lemma_fundamental_div_mod_converse(m.freq, 2 * m.freq, 0, m.freq);
    }
}

/// A reading that lies before the release of the current frame (the counter went
/// backwards) is released at once and leaves the estimates alone.
pub proof fn law_backward_clock_is_ignored(
    m: PacerModel,
    end: i64,
    hint: Option<VBlankHint>,
    d: PacerDecision,
)
    requires
        m.decides(end as int, hint, d),
        m.freq > 0,
        m.last_release != 0,
        end < m.last_release,
    ensures
        d.wake_qpc == end,
        d.stats.bypass,
        m.after(end as int, hint).ema_us == m.ema_us,
        m.after(end as int, hint).dev_us == m.dev_us,
{
}

/// The decision's flags and figures agree: the limiter reports that it stepped aside
/// exactly when it does not delay, and a delay is never negative.
pub proof fn law_bypass_means_no_delay(
    m: PacerModel,
    end: i64,
    hint: Option<VBlankHint>,
    d: PacerDecision,
)
    requires
        m.decides(end as int, hint, d),
        m.freq > 0,
    ensures
        d.stats.bypass == (d.wake_qpc == end),
        d.stats.bypass == m.bypasses(end as int, hint),
        d.stats.sleep_us >= 0,
{
    if !(m.last_release == 0 || m.is_short(end as int)) {
        let a = (m.plan(end as int, hint).wake - end) * SECOND_US;
        let freq = m.freq;
        assert(0 * freq <= a <= a * freq) by (nonlinear_arith)
            requires
                a >= 0,
                freq > 0,
        ;
        fixed::lemma_round_between(a, freq, 0, a);
    }
}

/// The smoothing factors of `cfg` are fractions and its margins are not negative.
pub open spec fn is_smoothing(cfg: PacerConfig) -> bool {
    &&& 0 <= cfg.ema_alpha <= ONE
    &&& 0 <= cfg.deviation_beta <= ONE
    &&& 0 <= cfg.variance_multiplier
    &&& 0 <= cfg.base_safety_margin_us
}

/// A single frame moves the estimate towards its sample and never past it; the
/// sample is at most four target intervals, so one stall cannot carry the estimate
/// beyond that.
pub proof fn law_stall_does_not_poison_the_estimate(m: PacerModel, end: int)
    requires
        is_smoothing(m.cfg),
        i64::MIN <= m.ema_us <= i64::MAX,
    ensures
        ({
            let sample = m.sample_us(end);
            let ema = m.estimate(end).ema_us;
            &&& sample <= pacer::later_of(50_000_000, 4 * m.cfg.interval_us())
            &&& m.ema_us <= sample ==> m.ema_us <= ema <= sample || m.frames == 1
            &&& m.ema_us >= sample ==> sample <= ema <= m.ema_us
            &&& m.frames == 1 ==> ema == sample
        }),
{
    let sample = m.sample_us(end);
    let delta = sample - m.ema_us;
    let alpha = m.cfg.ema_alpha as int;
    lemma_interval_range(m.cfg);
    if m.frames != 1 {
        if delta >= 0 {
            assert(0 * ONE <= alpha * delta <= delta * ONE) by (nonlinear_arith)
                requires
                    0 <= alpha <= 1_000_000,
                    delta >= 0,
                    ONE == 1_000_000,
            ;
            fixed::lemma_round_between(alpha * delta, ONE as int, 0, delta);
        } else {
            assert(delta * ONE <= alpha * delta <= 0 * ONE) by (nonlinear_arith)
                requires
                    0 <= alpha <= 1_000_000,
                    delta < 0,
                    ONE == 1_000_000,
            ;
            fixed::lemma_round_between(alpha * delta, ONE as int, delta, 0);
        }
    }
}

/// How far an estimate is from a frame time.
pub open spec fn distance(ema: int, sample: int) -> int {
    if ema >= sample {
        ema - sample
    } else {
        sample - ema
    }
}

/// Every frame brings the estimate nearer to its sample: of the distance at most the part
/// that the smoothing factor leaves remains, and one half for the rounding.
pub proof fn law_estimate_approaches_the_sample(m: PacerModel, end: int)
    requires
        is_smoothing(m.cfg),
        i64::MIN <= m.ema_us <= i64::MAX,
    ensures
        ({
            let sample = m.sample_us(end);
            let ema = m.estimate(end).ema_us;
            &&& m.frames == 1 ==> ema == sample
            &&& 2 * ONE * distance(ema, sample) <= 2 * (ONE - m.cfg.ema_alpha) * distance(
                m.ema_us,
                sample,
            ) + ONE
            &&& i64::MIN <= ema <= i64::MAX
        }),
{
    law_stall_does_not_poison_the_estimate(m, end);
    lemma_interval_range(m.cfg);
    let sample = m.sample_us(end);
    let delta = sample - m.ema_us;
    let alpha = m.cfg.ema_alpha as int;
    let before = distance(m.ema_us, sample);
    assert(0 <= (ONE - alpha) * before) by (nonlinear_arith)
        requires
            alpha <= ONE,
            0 <= before,
    ;
    assert(2 * (ONE - alpha) * before == 2 * ((ONE - alpha) * before)) by (nonlinear_arith);
    if m.frames != 1 {
        let t = fixed::round_quot(alpha * delta, ONE as int);
        fixed::lemma_nearest(alpha * delta, ONE as int);
        assert((1_000_000 - alpha) * delta == 1_000_000 * delta - alpha * delta)
            by (nonlinear_arith);
        assert((1_000_000 - alpha) * (-delta) == -((1_000_000 - alpha) * delta))
            by (nonlinear_arith);
    }
}

/// A game that goes on with frames of one cost, whatever came before them (a stall, say):
/// the estimate settles on that cost. What its distance is above the rounding, which is
/// one half of a unit by the smoothing factor, shrinks with every frame by the part that
/// the factor leaves.
pub proof fn law_estimate_settles_on_a_constant_cost(
    states: Seq<PacerModel>,
    ends: Seq<int>,
    sample: int,
    n: nat,
)
    requires
        n < states.len(),
        n <= ends.len(),
        is_smoothing(states[0].cfg),
        i64::MIN <= states[0].ema_us <= i64::MAX,
        forall|i: int|
            0 <= i < n ==> {
                &&& (#[trigger] states[i]).sample_us(ends[i]) == sample
                &&& states[i + 1].ema_us == states[i].estimate(ends[i]).ema_us
                &&& states[i + 1].cfg == states[i].cfg
            },
    ensures
        ({
            let alpha = states[0].cfg.ema_alpha;
            &&& pow(ONE as int, n) * (2 * alpha * distance(states[n as int].ema_us, sample) - ONE)
                <= pow(ONE - alpha, n) * (2 * alpha * distance(states[0].ema_us, sample) - ONE)
            &&& states[n as int].cfg == states[0].cfg
            &&& i64::MIN <= states[n as int].ema_us <= i64::MAX
        }),
    decreases n,
{
    let alpha = states[0].cfg.ema_alpha as int;
    reveal(pow);
    if n > 0 {
        let j = (n - 1) as nat;
        law_estimate_settles_on_a_constant_cost(states, ends, sample, j);
        let m = states[j as int];
        law_estimate_approaches_the_sample(m, ends[j as int]);
        let (before, after) = (
            distance(m.ema_us, sample),
            distance(states[n as int].ema_us, sample),
        );
        let first = 2 * alpha * distance(states[0].ema_us, sample) - ONE;
        let (e, f) = (2 * alpha * before - ONE, 2 * alpha * after - ONE);
        assert(1_000_000 * f <= (1_000_000 - alpha) * e) by (nonlinear_arith)
            requires
                2 * 1_000_000 * after <= 2 * (1_000_000 - alpha) * before + 1_000_000,
                e == 2 * alpha * before - 1_000_000,
                f == 2 * alpha * after - 1_000_000,
                0 <= alpha,
        ;
        let p = pow(ONE as int, j);
        let r = pow(ONE - alpha, j);
        vstd::arithmetic::power::lemma_pow_positive(ONE as int, j);
        assert(1_000_000 * p * f <= (1_000_000 - alpha) * (p * e)) by (nonlinear_arith)
            requires
                1_000_000 * f <= (1_000_000 - alpha) * e,
                0 < p,
        ;
        assert((1_000_000 - alpha) * (p * e) <= (1_000_000 - alpha) * r * first)
            by (nonlinear_arith)
            requires
                p * e <= r * first,
                alpha <= 1_000_000,
        ;
    }
}

/// The interval between two frames is at most ten seconds.
pub(crate) proof fn lemma_interval_range(cfg: PacerConfig)
    ensures
        0 <= cfg.interval_us() <= 10_000_000_000_000,
{
    let rate: int = if cfg.target_fps < pacer::FPS_FLOOR {
        pacer::FPS_FLOOR as int
    } else {
        cfg.target_fps as int
    };
    assert(0 * rate <= SECOND_US * ONE <= 10_000_000_000_000 * rate) by (nonlinear_arith)
        requires
            rate >= 100_000,
            SECOND_US == 1_000_000_000_000,
            ONE == 1_000_000,
    ;
    fixed::lemma_round_between(SECOND_US * ONE, rate, 0, 10_000_000_000_000);
}

/// Jitter only widens the margin: it never falls below the configured base, and the
/// estimates stay non-negative.
pub proof fn law_margin_never_below_base(m: PacerModel, end: int)
    requires
        is_smoothing(m.cfg),
        0 <= m.ema_us <= i64::MAX,
        0 <= m.dev_us <= i64::MAX,
    ensures
        m.estimate(end).ema_us >= 0,
        m.estimate(end).dev_us >= 0,
        m.estimate(end).margin_us >= m.cfg.base_safety_margin_us,
        m.freq >= 0 ==> m.estimate(end).lead >= 0,
{
    law_stall_does_not_poison_the_estimate(m, end);
    let sample = m.sample_us(end);
    let delta = sample - m.ema_us;
    let spread = if delta < 0 {
        -delta
    } else {
        delta
    };
    let beta = m.cfg.deviation_beta as int;
    let blended = (ONE - beta) * m.dev_us + beta * spread;
    assert(blended >= 0) by (nonlinear_arith)
        requires
            blended == (ONE - beta) * m.dev_us + beta * spread,
            0 <= beta <= ONE,
            m.dev_us >= 0,
            spread >= 0,
    ;
    fixed::lemma_round_between(blended, ONE as int, 0, blended);
    let dev = m.estimate(end).dev_us;
    let widened = m.cfg.variance_multiplier * dev;
    assert(widened >= 0) by (nonlinear_arith)
        requires
            widened == m.cfg.variance_multiplier * dev,
            m.cfg.variance_multiplier >= 0,
            dev >= 0,
    ;
    fixed::lemma_round_between(widened, ONE as int, 0, widened);
    let lead_us = fixed::sat64(m.estimate(end).ema_us + m.estimate(end).margin_us);
    if m.freq > 0 {
        assert(lead_us * m.freq >= 0) by (nonlinear_arith)
            requires
                lead_us >= 0,
                m.freq > 0,
        ;
        fixed::lemma_round_between(lead_us * m.freq, SECOND_US as int, 0, lead_us * m.freq);
    }
}

/// Pacing on target intervals aims at the first slot of the grid that the next frame
/// can still make, and starts it exactly its lead before that slot.
pub proof fn law_interval_pacing_makes_the_first_feasible_slot(
    m: PacerModel,
    end: i64,
    resync: bool,
)
    requires
        m.freq > 0,
        i64::MIN <= m.last_target <= i64::MAX,
        ({
            let est = m.estimate(end as int);
            let interval = m.cfg.interval_qpc(m.freq);
            &&& !est.overloaded
            &&& interval > 0
            &&& i64::MIN <= pacer::first_slot(m.last_target + interval, interval, end + est.lead)
                <= i64::MAX
        }),
    ensures
        ({
            let est = m.estimate(end as int);
            let interval = m.cfg.interval_qpc(m.freq);
            let plan = m.slot_plan(est, end as int, resync);
            &&& (plan.target - m.last_target) % interval == 0
            &&& plan.target >= m.last_target + interval
            &&& plan.target - est.lead >= end
            &&& plan.target - est.lead <= i64::MAX ==> plan.wake == plan.target - est.lead
            &&& plan.late <==> m.last_target + interval < end + est.lead
            &&& plan.late ==> plan.target - interval < end + est.lead
        }),
{
    let est = m.estimate(end as int);
    let interval = m.cfg.interval_qpc(m.freq);
    let next = m.last_target + interval;
    pacer::lemma_first_slot(next, interval, end + est.lead);
    let target = pacer::first_slot(next, interval, end + est.lead);
    let k = (target - next) / interval;
    vstd::arithmetic::div_mod::lemma_fundamental_div_mod(target - next, interval);
    assert(target - m.last_target == (k + 1) * interval) by (nonlinear_arith)
        requires
            target - next == interval * k + 0,
            next == m.last_target + interval,
    ;
    vstd::arithmetic::div_mod::lemma_mod_multiples_basic(k + 1, interval);
}

/// Pacing on vblanks aims at a vblank of the display grid that the next frame can
/// still make; where the cadence had to be exceeded, no earlier vblank would do.
pub proof fn law_vblank_pacing_makes_a_feasible_vblank(m: PacerModel, end: i64, hint: VBlankHint)
    requires
        m.freq > 0,
        ({
            let est = m.estimate(end as int);
            let refresh = hint.refresh_qpc(m.freq);
            let here = m.index_of_hint(hint);
            let index = m.vblank_index(est, end as int, hint);
            &&& !est.overloaded
            &&& refresh > 0
            &&& i64::MIN <= index - here <= i64::MAX
            &&& i64::MIN <= hint.last_vblank_qpc + (index - here) * refresh <= i64::MAX
        }),
    ensures
        ({
            let est = m.estimate(end as int);
            let refresh = hint.refresh_qpc(m.freq);
            let plan = m.vblank_plan(est, end as int, hint);
            &&& (plan.target - hint.last_vblank_qpc) % refresh == 0
            &&& plan.target >= end + est.lead
            &&& plan.target - est.lead <= i64::MAX ==> plan.wake == plan.target - est.lead
            &&& plan.late ==> plan.target - refresh < end + est.lead
        }),
{
    let est = m.estimate(end as int);
    let refresh = hint.refresh_qpc(m.freq);
    let here = m.index_of_hint(hint);
    let index = m.vblank_index(est, end as int, hint);
    let a = end + est.lead - hint.last_vblank_qpc;
    let c = fixed::ceil_quot(a, refresh);
    vstd::arithmetic::div_mod::lemma_fundamental_div_mod(-a, refresh);
    vstd::arithmetic::div_mod::lemma_mod_bound(-a, refresh);
    let q = (-a) / refresh;
    let r = (-a) % refresh;
    let ahead = index - here;
    assert(c * refresh >= a && c * refresh - refresh < a) by (nonlinear_arith)
        requires
            -a == refresh * q + r,
            0 <= r < refresh,
            c == -q,
    ;
    assert(ahead * refresh >= c * refresh) by (nonlinear_arith)
        requires
            ahead >= c,
            refresh > 0,
    ;
    vstd::arithmetic::div_mod::lemma_mod_multiples_basic(ahead, refresh);
}

/// Vblanks that `k` frames in a row advance, and the fraction carried after them,
/// where the cadence starts with the fraction `carry / rate`.
pub open spec fn cadence_walk(carry: int, refresh: int, rate: int, k: nat) -> (int, int)
    decreases k,
{
    if k == 0 {
        (0, carry)
    } else {
        let (total, c) = cadence_walk(carry, refresh, rate, (k - 1) as nat);
        (total + (c + refresh) / rate, (c + refresh) % rate)
    }
}

/// The Bresenham walk neither gains nor loses vblanks: after `k` frames it has
/// advanced the whole part of `k` times the ratio of the rates, whatever the ratio.
pub proof fn law_cadence_does_not_drift(carry: int, refresh: int, rate: int, k: nat)
    requires
        0 <= carry < rate <= refresh,
    ensures
        cadence_walk(carry, refresh, rate, k).0 == (carry + k * refresh) / rate,
        cadence_walk(carry, refresh, rate, k).1 == (carry + k * refresh) % rate,
    decreases k,
{
    if k == 0 {
        vstd::arithmetic::div_mod::lemma_fundamental_div_mod_converse(carry, rate, 0, carry);
        assert(0 * refresh == 0);
    } else {
        let j = (k - 1) as nat;
        law_cadence_does_not_drift(carry, refresh, rate, j);
        let before = carry + j * refresh;
        let (total, c) = cadence_walk(carry, refresh, rate, j);
        let n = (c + refresh) / rate;
        let c1 = (c + refresh) % rate;
        vstd::arithmetic::div_mod::lemma_fundamental_div_mod(before, rate);
        vstd::arithmetic::div_mod::lemma_fundamental_div_mod(c + refresh, rate);
        vstd::arithmetic::div_mod::lemma_mod_bound(c + refresh, rate);
        assert(carry + k * refresh == (total + n) * rate + c1) by (nonlinear_arith)
            requires
                before == carry + j * refresh,
                before == rate * total + c,
                c + refresh == rate * n + c1,
                k == j + 1,
        ;
        vstd::arithmetic::div_mod::lemma_fundamental_div_mod_converse(
            carry + k * refresh,
            rate,
            total + n,
            c1,
        );
    }
}

/// A frame advances the whole part of the ratio of the rates or one vblank more,
/// never fewer than one. With a target that is negative it is one, and with a target of
/// nothing more than any grid has.
pub proof fn law_cadence_steps_are_even(m: PacerModel, hint: VBlankHint)
    requires
        0 <= m.acc_num < m.acc_den,
    ensures
        ({
            let rate = m.cadence_rate(hint);
            let ratio = hint.rate() / rate;
            let n = m.cadence_vblanks(hint);
            &&& m.walks_on() ==> n == i64::MAX
            &&& !m.walks_on() && m.cfg.target_fps > 0 ==> n == ratio || n == ratio + 1
            &&& !m.walks_on() && m.cfg.target_fps < 0 ==> n == 1
            &&& n >= 1
            &&& !m.walks_on() && m.cfg.target_fps > 0 && hint.rate() % rate == 0 && m.carried(rate)
                == 0 ==> n == ratio
        }),
{
    if !m.walks_on() && m.cfg.target_fps > 0 {
        lemma_even_steps(m, hint);
    }
}

proof fn lemma_even_steps(m: PacerModel, hint: VBlankHint)
    requires
        0 <= m.acc_num < m.acc_den,
        !m.walks_on(),
        m.cfg.target_fps > 0,
    ensures
        ({
            let rate = m.cadence_rate(hint);
            let ratio = hint.rate() / rate;
            let n = m.cadence_vblanks(hint);
            &&& 0 <= m.carried(rate) < rate
            &&& n == ratio || n == ratio + 1
            &&& n >= 1
            &&& ratio >= 1
            &&& hint.rate() % rate == 0 && m.carried(rate) == 0 ==> n == ratio
        }),
{
    let rate = m.cadence_rate(hint);
    let refresh = hint.rate();
    let carried = m.carried(rate);
    if m.acc_den != rate {
        assert(0 <= m.acc_num * rate < m.acc_den * rate) by (nonlinear_arith)
            requires
                0 <= m.acc_num < m.acc_den,
                0 < rate,
        ;
        vstd::arithmetic::div_mod::lemma_multiply_divide_lt(m.acc_num * rate, m.acc_den, rate);
        vstd::arithmetic::div_mod::lemma_div_pos_is_pos(m.acc_num * rate, m.acc_den);
    }
    vstd::arithmetic::div_mod::lemma_fundamental_div_mod(refresh, rate);
    vstd::arithmetic::div_mod::lemma_mod_bound(refresh, rate);
    let q = refresh / rate;
    let r = refresh % rate;
    assert(q >= 1) by (nonlinear_arith)
        requires
            refresh == rate * q + r,
            0 <= r < rate <= refresh,
    ;
    if carried + r < rate {
        assert(carried + refresh == q * rate + (carried + r)) by (nonlinear_arith)
            requires
                refresh == rate * q + r,
        ;
        vstd::arithmetic::div_mod::lemma_fundamental_div_mod_converse(
            carried + refresh,
            rate,
            q,
            carried + r,
        );
    } else {
        assert(carried + refresh == (q + 1) * rate + (carried + r - rate)) by (nonlinear_arith)
            requires
                refresh == rate * q + r,
        ;
        vstd::arithmetic::div_mod::lemma_fundamental_div_mod_converse(
            carried + refresh,
            rate,
            q + 1,
            carried + r - rate,
        );
    }
}

/// Converting ticks to microseconds and back gives the same ticks, for every counter
/// that ticks at most once per picosecond.
pub proof fn law_tick_conversion_round_trips(ticks: i64, freq: int)
    requires
        0 < freq <= SECOND_US,
    ensures
        pacer::us_to_ticks(pacer::ticks_to_us(ticks as int, freq), freq) == ticks,
{
    let t = ticks as int;
    let us = pacer::ticks_to_us(t, freq);
    fixed::lemma_nearest(t * SECOND_US, freq);
    fixed::lemma_nearest(us * freq, SECOND_US as int);
    let back = fixed::round_quot(us * freq, SECOND_US as int);
    // Both roundings err by at most one half, and the first error shrinks by
    // `freq / SECOND_US` on the way back.
    assert(-freq <= 2 * (us * freq - t * SECOND_US) <= freq);
    assert(-SECOND_US <= 2 * (back * SECOND_US - us * freq) <= SECOND_US);
    assert(back == t) by {
        let e = back * SECOND_US - t * SECOND_US;
        assert(e == (back - t) * SECOND_US) by (nonlinear_arith)
            requires
                e == back * SECOND_US - t * SECOND_US,
        ;
        assert(-SECOND_US - freq <= 2 * e <= SECOND_US + freq);
        if freq < SECOND_US {
            assert(back - t == 0) by (nonlinear_arith)
                requires
                    e == (back - t) * 1_000_000_000_000,
                    -2_000_000_000_000 < 2 * e < 2_000_000_000_000,
            ;
        } else {
            fixed::lemma_round_exact(t, freq);
            fixed::lemma_round_exact(us, freq);
        }
    }
}

} // verus!
