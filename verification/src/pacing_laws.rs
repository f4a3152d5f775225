//! What a pacing decision means in the figures that it is made from.

use vstd::prelude::*;

use crate::fixed;
use crate::fixed::ONE;
use crate::live_laws::same_time;
use crate::pacer;
use crate::pacer::{PacerConfig, PacerDecision, PacerMode, PacerModel, VBlankHint};
use crate::pacer_laws;
use crate::pacer_laws::{distance, is_smoothing, lemma_interval_range};

verus! {

/// A time in fixed-point microseconds and the tick nearest to it.
pub open spec fn nearest_tick(ticks: int, us: int, freq: int) -> bool {
    -1_000_000_000_000 <= 2 * (ticks * 1_000_000_000_000 - us * freq) <= 1_000_000_000_000
}

/// Ticks are converted to the nearest time, and times to the nearest tick.
pub proof fn law_conversions_take_the_nearest(ticks: i64, us: i64, freq: i64)
    ensures
        freq > 0 ==> same_time(pacer::ticks_to_us(ticks as int, freq as int), ticks as int, freq
            as int),
        freq > 0 ==> {
            let t = pacer::us_to_ticks(us as int, freq as int);
            ||| nearest_tick(t, us as int, freq as int)
            ||| t == i64::MAX && us * freq > i64::MAX * 1_000_000_000_000
            ||| t == i64::MIN && us * freq < i64::MIN * 1_000_000_000_000
        },
        freq <= 0 ==> pacer::ticks_to_us(ticks as int, freq as int) == 0 && pacer::us_to_ticks(
            us as int,
            freq as int,
        ) == 0,
{
    if freq > 0 {
        fixed::lemma_nearest(ticks * 1_000_000_000_000, freq as int);
        fixed::lemma_nearest(us * freq, 1_000_000_000_000);
    }
}

/// The interval between two frames is one second by the target rate, but no rate is taken
/// for less than a tenth of a frame per second.
pub proof fn law_interval_is_a_second_by_the_rate(cfg: PacerConfig)
    ensures
        ({
            let rate: int = if cfg.target_fps < 100_000 {
                100_000
            } else {
                cfg.target_fps as int
            };
            -rate <= 2 * (cfg.interval_us() * rate - 1_000_000_000_000_000_000) <= rate
        }),
        0 <= cfg.interval_us() <= 10_000_000_000_000,
{
    let rate: int = if cfg.target_fps < 100_000 {
        100_000
    } else {
        cfg.target_fps as int
    };
    fixed::lemma_nearest(1_000_000_000_000_000_000, rate);
    lemma_interval_range(cfg);
}

/// Two vblanks are a second by the refresh rate apart, to the nearest tick; a rate of 1 Hz
/// or less is taken for 60.
pub proof fn law_vblanks_are_a_second_by_the_rate_apart(hint: VBlankHint, freq: i64)
    requires
        freq > 0,
    ensures
        ({
            let rate: int = if hint.refresh_hz > 1_000_000 {
                hint.refresh_hz as int
            } else {
                60_000_000
            };
            let r = hint.refresh_qpc(freq as int);
            &&& r >= 0
            &&& hint.rate() == rate
            &&& r < i64::MAX ==> exists|us: int|
                #![trigger nearest_tick(r, us, freq as int)]
                {
                    &&& -rate <= 2 * (us * rate - 1_000_000_000_000_000_000) <= rate
                    &&& nearest_tick(r, us, freq as int)
                }
        }),
{
    let rate = hint.rate();
    let us = fixed::round_quot(1_000_000_000_000_000_000, rate);
    fixed::lemma_nearest(1_000_000_000_000_000_000, rate);
    assert(0 * rate <= 1_000_000_000_000_000_000 <= 1_000_000_000_000_000_000 * rate)
        by (nonlinear_arith)
        requires
            rate >= 1,
    ;
    fixed::lemma_round_between(1_000_000_000_000_000_000, rate, 0, 1_000_000_000_000_000_000);
    pacer::lemma_ticks_of_positive(us, freq as int);
    fixed::lemma_nearest(us * freq, 1_000_000_000_000);
    let r = hint.refresh_qpc(freq as int);
    if r < i64::MAX {
        assert(nearest_tick(r, us, freq as int));
    }
}

/// A state that a pacer can be in.
pub open spec fn is_sound(m: PacerModel) -> bool {
    &&& is_smoothing(m.cfg)
    &&& 0 < m.freq <= i64::MAX
    &&& 0 <= m.ema_us <= i64::MAX
    &&& 0 <= m.dev_us <= i64::MAX
    &&& i64::MIN <= m.last_release <= i64::MAX
    &&& i64::MIN <= m.last_target <= i64::MAX
}

/// A frame that is measured: there was one before it, and it took at least 50 µs.
pub open spec fn is_measured(m: PacerModel, end: int) -> bool {
    m.last_release != 0 && (end - m.last_release) * 1_000_000 >= 50 * m.freq
}

/// The cost of a frame is the time from its release to the end of its present call. What
/// enters the estimate is that, cut to between 50 µs and four target intervals.
pub proof fn law_cost_is_the_time_since_the_release(
    m: PacerModel,
    end: i64,
    hint: Option<VBlankHint>,
    d: PacerDecision,
)
    requires
        is_sound(m),
        m.decides(end as int, hint, d),
    ensures
        is_measured(m, end as int) ==> {
            let cost = d.stats.frame_duration_us as int;
            let most = if 4 * m.cfg.interval_us() > 50_000_000 {
                4 * m.cfg.interval_us()
            } else {
                50_000_000
            };
            let sample = m.sample_us(end as int);
            &&& same_time(cost, end - m.last_release, m.freq)
            &&& 50_000_000 <= sample <= most
            &&& 50_000_000 <= cost <= most ==> sample == cost
            &&& cost > most ==> sample == most
            &&& cost < 50_000_000 ==> sample == 50_000_000
            &&& same_time(d.stats.sleep_us as int, d.wake_qpc - end, m.freq)
        },
        !is_measured(m, end as int) ==> {
            &&& d.wake_qpc == end
            &&& d.stats.frame_duration_us == 0
            &&& d.stats.bypass
            &&& m.after(end as int, hint).ema_us == m.ema_us
            &&& m.after(end as int, hint).dev_us == m.dev_us
        },
{
    let e = end as int;
    fixed::lemma_nearest((e - m.last_release) * 1_000_000_000_000, m.freq);
    if is_measured(m, e) {
        fixed::lemma_nearest((m.plan(e, hint).wake - e) * 1_000_000_000_000, m.freq);
        lemma_interval_range(m.cfg);
    }
}

/// The deviation follows how far frames are from the estimate: it moves the part that its
/// factor says of the way from what it was to the distance of the last frame, and never
/// past either. The margin is the base and the deviation by its factor: jitter widens it.
pub proof fn law_jitter_widens_the_margin(
    m: PacerModel,
    end: i64,
    hint: Option<VBlankHint>,
    d: PacerDecision,
)
    requires
        is_sound(m),
        is_measured(m, end as int),
        m.decides(end as int, hint, d),
    ensures
        ({
            let x = distance(m.ema_us, m.sample_us(end as int));
            let beta = m.cfg.deviation_beta as int;
            let dev = d.stats.deviation_us as int;
            let base = m.cfg.base_safety_margin_us as int;
            let factor = m.cfg.variance_multiplier as int;
            let margin = d.stats.safety_margin_us as int;
            &&& m.after(end as int, hint).dev_us == dev
            &&& m.after(end as int, hint).ema_us == d.stats.ema_duration_us
            &&& m.frames == 1 ==> dev == 0
            &&& m.frames != 1 ==> {
                &&& -1_000_000 <= 2 * (1_000_000 * dev - ((1_000_000 - beta) * m.dev_us + beta * x))
                    <= 1_000_000
                &&& m.dev_us <= x ==> m.dev_us <= dev <= x
                &&& x <= m.dev_us ==> x <= dev <= m.dev_us
                &&& m.dev_us == 0 && 2 * beta * x >= 1_000_000 ==> dev > 0
            }
            &&& margin < i64::MAX ==> -1_000_000 <= 2 * (1_000_000 * (margin - base) - factor * dev)
                <= 1_000_000
            &&& margin >= base
            &&& 2 * factor * dev >= 1_000_000 && base < i64::MAX ==> margin > base
        }),
{
    let e = end as int;
    pacer_laws::law_margin_never_below_base(m, e);
    pacer_laws::law_stall_does_not_poison_the_estimate(m, e);
    lemma_interval_range(m.cfg);
    let sample = m.sample_us(e);
    let delta = sample - m.ema_us;
    let x = distance(m.ema_us, sample);
    let beta = m.cfg.deviation_beta as int;
    let blended = (1_000_000 - beta) * m.dev_us + beta * x;
    fixed::lemma_nearest(blended, 1_000_000);
    assert(0 <= blended && (m.dev_us <= x ==> m.dev_us * 1_000_000 <= blended <= x * 1_000_000) && (
    x <= m.dev_us ==> x * 1_000_000 <= blended <= m.dev_us * 1_000_000)) by (nonlinear_arith)
        requires
            blended == (1_000_000 - beta) * m.dev_us + beta * x,
            0 <= beta <= 1_000_000,
            0 <= x,
            0 <= m.dev_us,
    ;
    if m.dev_us <= x {
        fixed::lemma_round_between(blended, 1_000_000, m.dev_us, x);
    }
    if x <= m.dev_us {
        fixed::lemma_round_between(blended, 1_000_000, x, m.dev_us);
    }
    let dev = d.stats.deviation_us as int;
    if m.frames != 1 {
        assert(dev == fixed::round_quot(blended, 1_000_000));
        assert(2 * beta * x == 2 * (beta * x)) by (nonlinear_arith);
        if m.dev_us == 0 {
            assert((1_000_000 - beta) * 0 == 0);
            if 2 * (beta * x) >= 1_000_000 {
                assert((2 * blended + 1_000_000) / 2_000_000 >= 1);
            }
        }
    }
    let factor = m.cfg.variance_multiplier as int;
    let widened = factor * dev;
    fixed::lemma_nearest(widened, 1_000_000);
    assert(0 <= widened) by (nonlinear_arith)
        requires
            widened == factor * dev,
            0 <= factor,
            0 <= dev,
    ;
    fixed::lemma_round_between(widened, 1_000_000, 0, widened);
    assert(2 * factor * dev == 2 * widened) by (nonlinear_arith)
        requires
            widened == factor * dev,
    ;
    if 2 * widened >= 1_000_000 {
        assert((2 * widened + 1_000_000) / 2_000_000 >= 1);
    }
}

/// The estimate of a measured frame moves the part that its factor says of the way to what
/// enters it; the first one is taken whole.
pub proof fn law_estimate_follows_the_cost(
    m: PacerModel,
    end: i64,
    hint: Option<VBlankHint>,
    d: PacerDecision,
)
    requires
        is_sound(m),
        is_measured(m, end as int),
        m.decides(end as int, hint, d),
    ensures
        ({
            let sample = m.sample_us(end as int);
            let alpha = m.cfg.ema_alpha as int;
            let ema = d.stats.ema_duration_us as int;
            &&& m.frames == 1 ==> ema == sample
            &&& m.frames != 1 ==> -1_000_000 <= 2 * (1_000_000 * (ema - m.ema_us) - alpha * (sample
                - m.ema_us)) <= 1_000_000
        }),
{
    let e = end as int;
    pacer_laws::law_stall_does_not_poison_the_estimate(m, e);
    lemma_interval_range(m.cfg);
    let delta = m.sample_us(e) - m.ema_us;
    let alpha = m.cfg.ema_alpha as int;
    fixed::lemma_nearest(alpha * delta, 1_000_000);
    if delta >= 0 {
        assert(0 * 1_000_000 <= alpha * delta <= delta * 1_000_000) by (nonlinear_arith)
            requires
                0 <= alpha <= 1_000_000,
                delta >= 0,
        ;
        fixed::lemma_round_between(alpha * delta, 1_000_000, 0, delta);
    } else {
        assert(delta * 1_000_000 <= alpha * delta <= 0 * 1_000_000) by (nonlinear_arith)
            requires
                0 <= alpha <= 1_000_000,
                delta < 0,
        ;
        fixed::lemma_round_between(alpha * delta, 1_000_000, delta, 0);
    }
}

/// A frame that is delayed starts the estimated cost and the margin before its target, to
/// the nearest tick: it completes that margin ahead of it.
pub proof fn law_delayed_frame_completes_its_margin_early(
    m: PacerModel,
    end: i64,
    hint: Option<VBlankHint>,
    d: PacerDecision,
)
    requires
        is_sound(m),
        m.decides(end as int, hint, d),
        !d.stats.bypass,
    ensures
        is_measured(m, end as int),
        d.wake_qpc > end,
        m.cfg.mode != PacerMode::Bypass,
        ({
            let lead_us = d.stats.ema_duration_us + d.stats.safety_margin_us;
            let lead = d.target_tick_qpc - d.wake_qpc;
            lead_us <= i64::MAX && lead < i64::MAX ==> nearest_tick(lead, lead_us, m.freq)
                || d.wake_qpc == i64::MIN || lead_us * m.freq > i64::MAX * 1_000_000_000_000
        }),
{
    let e = end as int;
    pacer_laws::law_margin_never_below_base(m, e);
    let est = m.estimate(e);
    fixed::lemma_nearest(fixed::sat64(est.ema_us + est.margin_us) * m.freq, 1_000_000_000_000);
}

/// A frame that leaves less than the base margin of its interval is not delayed, in any
/// mode.
pub proof fn law_blown_budget_is_never_delayed(
    m: PacerModel,
    end: i64,
    hint: Option<VBlankHint>,
    d: PacerDecision,
)
    requires
        is_sound(m),
        is_measured(m, end as int),
        m.decides(end as int, hint, d),
    ensures
        d.stats.frame_duration_us >= m.cfg.interval_us() - m.cfg.base_safety_margin_us
            ==> d.wake_qpc == end && d.stats.bypass && d.stats.sleep_us == 0,
        m.cfg.mode == PacerMode::Bypass ==> d.wake_qpc == end && d.stats.bypass,
{
    fixed::lemma_round_exact(0, m.freq);
    assert(0 * m.freq == 0);
}

/// Where the display follows the game, a frame that blew its budget sets the grid anew: the
/// next one aims one interval from now. Any other one aims at a slot, the first that it can
/// make, and never more than one interval beyond both the slot after the last and the first
/// instant that it could make.
pub proof fn law_slots_are_never_far_off(
    m: PacerModel,
    end: i64,
    hint: Option<VBlankHint>,
    d: PacerDecision,
)
    requires
        is_sound(m),
        is_measured(m, end as int),
        m.decides(end as int, hint, d),
        m.cfg.mode == PacerMode::Vrr || (m.cfg.mode == PacerMode::FixedVsync && hint is None),
    ensures
        ({
            let i = m.cfg.interval_qpc(m.freq);
            let blown = d.stats.frame_duration_us >= m.cfg.interval_us()
                - m.cfg.base_safety_margin_us;
            let earliest = end + m.estimate(end as int).lead;
            let next = m.last_target + i;
            &&& 0 <= i
            &&& i < i64::MAX ==> nearest_tick(i, m.cfg.interval_us(), m.freq)
            &&& m.cfg.mode == PacerMode::Vrr && blown ==> {
                &&& d.wake_qpc == end
                &&& end + i <= i64::MAX ==> d.target_tick_qpc == end + i
            }
            &&& d.target_tick_qpc <= next || d.target_tick_qpc <= earliest + i || (
            m.cfg.mode == PacerMode::Vrr && d.target_tick_qpc <= end + i)
            &&& !(m.cfg.mode == PacerMode::Vrr && blown) && d.target_tick_qpc < i64::MAX ==> {
                &&& d.target_tick_qpc >= next
                &&& d.target_tick_qpc >= earliest
                &&& i > 0 ==> (d.target_tick_qpc - m.last_target) % i == 0
            }
            &&& d.stats.late <==> next < earliest
            &&& d.cadence_step == 1
        }),
{
    let e = end as int;
    let i = m.cfg.interval_qpc(m.freq);
    lemma_interval_range(m.cfg);
    pacer::lemma_ticks_of_positive(m.cfg.interval_us(), m.freq);
    fixed::lemma_nearest(m.cfg.interval_us() * m.freq, 1_000_000_000_000);
    pacer_laws::law_margin_never_below_base(m, e);
    let est = m.estimate(e);
    let next = m.last_target + i;
    let slot = pacer::first_slot(next, i, e + est.lead);
    if i > 0 {
        pacer::lemma_first_slot(next, i, e + est.lead);
        vstd::arithmetic::div_mod::lemma_fundamental_div_mod(slot - next, i);
        let k = (slot - next) / i;
        assert(slot - m.last_target == (k + 1) * i) by (nonlinear_arith)
            requires
                slot - next == i * k + 0,
                next == m.last_target + i,
        ;
        vstd::arithmetic::div_mod::lemma_mod_multiples_basic(k + 1, i);
    }
}

/// On the vblanks of a display, a frame advances by the cadence, or it aims at the first
/// vblank that it can still make; it is late exactly where the vblank it was due for comes
/// too early for it.
pub proof fn law_vblanks_are_never_far_off(
    m: PacerModel,
    end: i64,
    hint: VBlankHint,
    d: PacerDecision,
)
    requires
        is_sound(m),
        is_measured(m, end as int),
        m.decides(end as int, Some(hint), d),
        m.cfg.mode == PacerMode::FixedVsync,
        hint.refresh_qpc(m.freq) > 0,
    ensures
        ({
            let r = hint.refresh_qpc(m.freq);
            let here = m.index_of_hint(hint);
            let n = m.cadence_vblanks(hint);
            let earliest = end + m.estimate(end as int).lead;
            let due = hint.last_vblank_qpc + (m.last_index + n - here) * r;
            let blown = d.stats.frame_duration_us >= m.cfg.interval_us()
                - m.cfg.base_safety_margin_us;
            &&& d.stats.late <==> due < earliest
            &&& !blown && !d.stats.late && i64::MIN <= n <= i64::MAX ==> d.cadence_step == n
            &&& (blown || d.stats.late) && i64::MIN < d.target_tick_qpc < i64::MAX ==> {
                ||| earliest <= d.target_tick_qpc < earliest + r
                ||| m.feasible_index(m.estimate(end as int), end as int, hint) - here > i64::MAX
                ||| m.feasible_index(m.estimate(end as int), end as int, hint) - here < i64::MIN
            }
        }),
{
    let e = end as int;
    let est = m.estimate(e);
    let r = hint.refresh_qpc(m.freq);
    let here = m.index_of_hint(hint);
    let n = m.cadence_vblanks(hint);
    let a = e + est.lead - hint.last_vblank_qpc;
    let q = (-a) / r;
    let t = (-a) % r;
    vstd::arithmetic::div_mod::lemma_fundamental_div_mod(-a, r);
    vstd::arithmetic::div_mod::lemma_mod_bound(-a, r);
    let c = fixed::ceil_quot(a, r);
    let k = m.last_index + n - here;
    assert(a <= c * r < a + r && (k < c <==> k * r < a)) by (nonlinear_arith)
        requires
            -a == r * q + t,
            0 <= t < r,
            c == -q,
    ;
}

/// The vblank that a hint reports is counted on from the last one by as many intervals as
/// lie nearest between them.
pub proof fn law_vblanks_are_counted_on(m: PacerModel, hint: VBlankHint)
    requires
        is_sound(m),
        m.frames > 1,
        m.hint_qpc != 0,
        hint.refresh_qpc(m.freq) > 0,
        i64::MIN <= m.hint_index <= i64::MAX,
        m.index_of_hint(hint) < i64::MAX,
    ensures
        ({
            let r = hint.refresh_qpc(m.freq);
            let moved = hint.last_vblank_qpc - m.hint_qpc;
            let k = m.index_of_hint(hint) - m.hint_index;
            &&& k >= 0
            &&& moved >= 0 ==> -r <= 2 * (k * r - moved) <= r
            &&& moved <= 0 ==> k == 0
        }),
{
    let r = hint.refresh_qpc(m.freq);
    let moved = hint.last_vblank_qpc - m.hint_qpc;
    fixed::lemma_nearest(moved, r);
    assert(moved >= 0 ==> 0 * r <= moved <= moved * r) by (nonlinear_arith)
        requires
            r >= 1,
    ;
    assert(moved <= 0 ==> moved * r <= moved <= 0 * r) by (nonlinear_arith)
        requires
            r >= 1,
    ;
    if moved >= 0 {
        fixed::lemma_round_between(moved, r, 0, moved);
    }
    if moved <= 0 {
        fixed::lemma_round_between(moved, r, moved, 0);
    }
}

/// The cadence neither loses nor gains: the vblanks of a frame and the fraction that is
/// carried on are those of the ratio of the rates and the fraction that was carried to it.
/// The rate is the target, but not above what the display shows.
pub proof fn law_cadence_carries_the_fraction(m: PacerModel, end: i64, hint: VBlankHint)
    requires
        is_sound(m),
        is_measured(m, end as int),
        m.cfg.mode == PacerMode::FixedVsync,
        m.cfg.target_fps > 0,
        !m.endless,
        0 <= m.acc_num < m.acc_den,
    ensures
        ({
            let shown = hint.rate();
            let rate: int = if m.cfg.target_fps < shown {
                m.cfg.target_fps as int
            } else {
                shown
            };
            let n = m.cadence_vblanks(hint);
            let next = m.after(end as int, Some(hint));
            let carried = n * rate + next.acc_num - shown;
            &&& next.acc_den == rate
            &&& 0 <= next.acc_num < rate
            &&& n >= 1
            &&& m.acc_den == rate ==> carried == m.acc_num
            &&& carried * m.acc_den <= m.acc_num * rate < (carried + 1) * m.acc_den
            &&& !next.endless
        }),
{
    let shown = hint.rate();
    let rate = m.cadence_rate(hint);
    let c = m.carried(rate);
    let w = c + shown;
    vstd::arithmetic::div_mod::lemma_fundamental_div_mod(w, rate);
    vstd::arithmetic::div_mod::lemma_mod_bound(w, rate);
    assert(rate * (w / rate) == (w / rate) * rate) by (nonlinear_arith);
    pacer_laws::law_cadence_steps_are_even(m, hint);
    if m.acc_den == rate {
        assert(c * m.acc_den <= m.acc_num * rate < (c + 1) * m.acc_den) by (nonlinear_arith)
            requires
                c == m.acc_num,
                m.acc_den == rate,
                rate > 0,
        ;
    } else {
        let a = m.acc_num * rate;
        vstd::arithmetic::div_mod::lemma_fundamental_div_mod(a, m.acc_den);
        vstd::arithmetic::div_mod::lemma_mod_bound(a, m.acc_den);
        let (den, rest) = (m.acc_den, a % m.acc_den);
        assert(c * den <= a < (c + 1) * den) by (nonlinear_arith)
            requires
                a == den * c + rest,
                0 <= rest < den,
        ;
    }
}

/// The lead is the estimated cost and the margin together, to the nearest tick.
pub proof fn law_lead_is_cost_and_margin(
    m: PacerModel,
    end: i64,
    hint: Option<VBlankHint>,
    d: PacerDecision,
)
    requires
        is_sound(m),
        is_measured(m, end as int),
        m.decides(end as int, hint, d),
    ensures
        ({
            let lead = m.estimate(end as int).lead;
            let lead_us = d.stats.ema_duration_us + d.stats.safety_margin_us;
            &&& lead >= 0
            &&& lead_us <= i64::MAX && lead < i64::MAX ==> nearest_tick(lead, lead_us, m.freq)
        }),
{
    let e = end as int;
    let est = m.estimate(e);
    pacer_laws::law_margin_never_below_base(m, e);
    pacer_laws::law_stall_does_not_poison_the_estimate(m, e);
    let us = fixed::sat64(est.ema_us + est.margin_us);
    pacer::lemma_ticks_of_positive(us, m.freq);
    fixed::lemma_nearest(us * m.freq, 1_000_000_000_000);
}

/// On the vblank grid the target lies as many vblanks after the reported one as the step
/// leads beyond it, and the step is the cadence's or, where that cannot be made, leads to
/// the first vblank that can.
pub proof fn law_target_is_the_vblank_of_the_step(
    m: PacerModel,
    end: i64,
    hint: VBlankHint,
    d: PacerDecision,
)
    requires
        is_sound(m),
        is_measured(m, end as int),
        m.decides(end as int, Some(hint), d),
        m.cfg.mode == PacerMode::FixedVsync,
        i64::MIN <= m.last_index <= i64::MAX,
    ensures
        ({
            let r = hint.refresh_qpc(m.freq);
            let k = m.last_index + d.cadence_step - m.index_of_hint(hint);
            let target = hint.last_vblank_qpc + k * r;
            i64::MIN < d.cadence_step < i64::MAX && i64::MIN <= k <= i64::MAX ==> {
                &&& i64::MIN <= target <= i64::MAX ==> d.target_tick_qpc == target
                &&& target > i64::MAX ==> d.target_tick_qpc == i64::MAX
                &&& target < i64::MIN ==> d.target_tick_qpc == i64::MIN
            }
        }),
{
}

/// What a frame leaves behind: the next one is planned from the target of this one, the
/// vblanks are counted on by its step, and the reported vblank is what later ones are
/// counted from. A frame that is not measured moves nothing, but for the first one, which
/// is what the next is measured from. Settings stay, and every frame is counted.
pub proof fn law_frame_leaves_its_target_behind(
    m: PacerModel,
    end: i64,
    hint: Option<VBlankHint>,
    d: PacerDecision,
)
    requires
        is_sound(m),
        m.decides(end as int, hint, d),
        i64::MIN <= m.last_index <= i64::MAX,
    ensures
        ({
            let next = m.after(end as int, hint);
            &&& next.cfg == m.cfg && next.freq == m.freq
            &&& m.frames < u64::MAX ==> next.frames == m.frames + 1
            &&& m.last_release == 0 ==> {
                &&& next.last_release == end
                &&& next.last_target == end
                &&& hint is Some ==> next.hint_qpc == hint->0.last_vblank_qpc
                &&& hint is None ==> next.hint_qpc == m.hint_qpc
                &&& next.last_index == m.last_index && next.hint_index == m.hint_index
            }
            &&& m.last_release != 0 ==> next.last_release == m.last_release
            &&& m.last_release != 0 && !is_measured(m, end as int) ==> {
                &&& next.last_target == m.last_target
                &&& next.last_index == m.last_index
                &&& next.hint_index == m.hint_index && next.hint_qpc == m.hint_qpc
            }
            &&& is_measured(m, end as int) ==> {
                &&& next.last_target == d.target_tick_qpc
                &&& m.cfg.mode != PacerMode::FixedVsync ==> next.last_index == m.last_index
                    && next.hint_qpc == m.hint_qpc && next.hint_index == m.hint_index
                &&& m.cfg.mode == PacerMode::FixedVsync && i64::MIN <= m.last_index
                    + d.cadence_step <= i64::MAX ==> next.last_index == m.last_index
                    + d.cadence_step
                &&& m.cfg.mode == PacerMode::FixedVsync && hint is Some ==> next.hint_qpc
                    == hint->0.last_vblank_qpc && next.hint_index == m.index_of_hint(hint->0)
                &&& m.cfg.mode == PacerMode::FixedVsync && hint is None ==> next.hint_qpc
                    == m.hint_qpc && next.hint_index == m.hint_index
            }
        }),
{
}

/// In bypass mode a frame aims at its own end and no frame is late; without a limiter in
/// the way nothing is counted in vblanks.
pub proof fn law_bypass_aims_at_nothing(
    m: PacerModel,
    end: i64,
    hint: Option<VBlankHint>,
    d: PacerDecision,
)
    requires
        m.decides(end as int, hint, d),
        m.cfg.mode == PacerMode::Bypass || !is_measured(m, end as int),
    ensures
        d.wake_qpc == end,
        d.target_tick_qpc == end,
        d.cadence_step == 0,
        !d.stats.late,
        d.stats.bypass,
{
}

/// A frame that kept its budget is delayed wherever there is time: until its lead before
/// the target, if that is still to come, and not at all otherwise.
pub proof fn law_frame_waits_where_there_is_time(
    m: PacerModel,
    end: i64,
    hint: Option<VBlankHint>,
    d: PacerDecision,
)
    requires
        is_sound(m),
        is_measured(m, end as int),
        m.decides(end as int, hint, d),
        m.cfg.mode != PacerMode::Bypass,
        d.stats.frame_duration_us < m.cfg.interval_us() - m.cfg.base_safety_margin_us,
    ensures
        ({
            let start = d.target_tick_qpc - m.estimate(end as int).lead;
            &&& start > end ==> d.wake_qpc == start && !d.stats.bypass
            &&& start <= end ==> d.wake_qpc == end && d.stats.bypass
        }),
{
    pacer_laws::law_margin_never_below_base(m, end as int);
    law_lead_is_cost_and_margin(m, end, hint, d);
}

/// A pacer starts without history: the first frame is not delayed and is what the next one
/// is measured from.
pub proof fn law_first_frame_is_only_remembered(
    cfg: PacerConfig,
    freq: i64,
    end: i64,
    hint: Option<VBlankHint>,
    d: PacerDecision,
)
    requires
        PacerModel::fresh(cfg, freq as int).decides(end as int, hint, d),
    ensures
        ({
            let m = PacerModel::fresh(cfg, freq as int);
            let next = m.after(end as int, hint);
            &&& m.cfg == cfg
            &&& freq >= 1 ==> m.freq == freq
            &&& freq < 1 ==> m.freq == 1
            &&& m.ema_us == 0 && m.dev_us == 0 && m.last_index == 0 && m.hint_index == 0
            &&& m.acc_num == 0 && !m.endless
            &&& d.wake_qpc == end && d.stats.bypass
            &&& next.frames == 1
            &&& next.last_release == end && next.last_target == end
        }),
{
}

/// The margin is 50 µs where the display follows the game, 250 where it does not and none
/// where nothing is paced. Modes have codes of their own.
pub proof fn law_margins_go_by_the_mode()
    ensures
        PacerConfig::margin_for(PacerMode::Vrr) == 50 * 1_000_000,
        PacerConfig::margin_for(PacerMode::FixedVsync) == 250 * 1_000_000,
        PacerConfig::margin_for(PacerMode::Bypass) == 0,
        PacerMode::Vrr.code() == 0,
        PacerMode::FixedVsync.code() == 1,
        PacerMode::Bypass.code() == 2,
{
}

/// Before a second vblank was reported there is nothing to count from.
pub proof fn law_first_vblank_is_not_counted(m: PacerModel, hint: VBlankHint)
    requires
        m.frames <= 1 || m.hint_qpc == 0,
    ensures
        m.index_of_hint(hint) == m.hint_index,
{
}

} // verus!
