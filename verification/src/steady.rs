//! What a game whose frames all cost the same gets from pacing.

use vstd::prelude::*;

use crate::fixed;
use crate::fixed::ONE;
use crate::pacer;
use crate::pacer::{Estimate, PacerConfig, PacerDecision, PacerMode, PacerModel, VBlankHint};
use crate::pacer_laws::{
    cadence_walk, law_cadence_does_not_drift, law_cadence_steps_are_even, lemma_interval_range,
};

verus! {

/// A game whose frames all take `cost` ticks from their start to the end of their present
/// call, on a display whose vblanks lie on a grid through `epoch`. It starts at `start`,
/// and starts each later frame when the pacer says so.
pub struct SteadyGame {
    pub cfg: PacerConfig,
    pub freq: int,
    pub refresh_hz: i64,
    pub epoch: int,
    pub start: int,
    pub cost: int,
}

impl SteadyGame {
    /// Ticks between two vblanks.
    pub open spec fn refresh(self) -> int {
        VBlankHint { refresh_hz: self.refresh_hz, last_vblank_qpc: 0 }.refresh_qpc(self.freq)
    }

    /// The refresh rate.
    pub open spec fn rate(self) -> int {
        VBlankHint { refresh_hz: self.refresh_hz, last_vblank_qpc: 0 }.rate()
    }

    /// The rate that the cadence divides the refresh rate by.
    pub open spec fn divisor(self) -> int {
        PacerModel::fresh(self.cfg, self.freq).cadence_rate(
            VBlankHint { refresh_hz: self.refresh_hz, last_vblank_qpc: 0 },
        )
    }

    /// The last vblank at or before `t`.
    pub open spec fn vblank(self, t: int) -> int {
        self.epoch + (t - self.epoch) / self.refresh() * self.refresh()
    }

    /// What the display reports at `t`.
    pub open spec fn hint(self, t: int) -> VBlankHint {
        VBlankHint { refresh_hz: self.refresh_hz, last_vblank_qpc: self.vblank(t) as i64 }
    }

    /// The pacer after `k` frames, each of which was released when the decision said.
    pub open spec fn run(self, k: nat) -> PacerModel
        decreases k, 1nat,
    {
        if k == 0 {
            PacerModel::fresh(self.cfg, self.freq)
        } else {
            let m = self.run((k - 1) as nat);
            let end = self.end(k);
            let after = m.after(end, Some(self.hint(end)));
            PacerModel {
                last_release: if k == 1 {
                    end
                } else {
                    m.plan(end, Some(self.hint(end))).wake
                },
                ..after
            }
        }
    }

    /// When the present call of the `k`-th frame returns, counted from one.
    pub open spec fn end(self, k: nat) -> int
        decreases k, 0nat,
    {
        if k <= 1 {
            self.start + self.cost
        } else {
            self.run((k - 1) as nat).last_release + self.cost
        }
    }

    /// The decision for the `k`-th frame.
    pub open spec fn decides(self, k: nat, d: PacerDecision) -> bool
        recommends
            k > 0,
    {
        self.run((k - 1) as nat).decides(self.end(k), Some(self.hint(self.end(k))), d)
    }

    /// The vblanks that the `k`-th frame advances.
    pub open spec fn step(self, k: nat) -> int
        recommends
            k > 1,
    {
        self.run((k - 1) as nat).plan(self.end(k), Some(self.hint(self.end(k)))).step
    }

    /// The vblanks that the `n` frames after the `k`-th advance together.
    pub open spec fn steps(self, k: nat, n: nat) -> int
        decreases n,
    {
        if n == 0 {
            0
        } else {
            self.steps(k, (n - 1) as nat) + self.step(k + n)
        }
    }

    /// The estimate once there is one: all frames cost the same, so it never moves.
    pub open spec fn estimate(self) -> Estimate {
        let m = PacerModel { last_release: 0, frames: 1, ..PacerModel::fresh(self.cfg, self.freq) };
        m.estimate(self.cost)
    }

    /// A reading that the first `k` frames do not go beyond.
    pub open spec fn horizon(self, k: nat) -> int {
        self.start + 2 * self.cost + self.estimate().lead + k * ((self.rate() / self.divisor() + 1)
            * self.refresh())
    }

    /// Frames that are long enough to be frames, and leave the base margin of their budget.
    pub open spec fn leaves_room(self) -> bool {
        &&& self.cfg.base_safety_margin_us >= 0
        &&& 1 <= self.freq <= i64::MAX
        &&& self.cost * 1_000_000 >= pacer::MIN_FRAME_US * self.freq
        &&& pacer::ticks_to_us(self.cost, self.freq) < self.cfg.budget_us()
    }

    /// The game keeps up with the vblanks: its frames leave room, and fit into the vblanks
    /// that every step advances.
    pub open spec fn keeps_up(self) -> bool {
        &&& self.cfg.mode == PacerMode::FixedVsync
        &&& self.cfg.target_fps > 0
        &&& self.leaves_room()
        &&& 0 < self.epoch <= self.start
        &&& self.cost <= self.rate() / self.divisor() * self.refresh()
    }

    /// Ticks between two frames at the target rate.
    pub open spec fn interval(self) -> int {
        self.cfg.interval_qpc(self.freq)
    }

    /// A reading that the first `k` frames do not go beyond where the display follows the
    /// game.
    pub open spec fn vrr_horizon(self, k: nat) -> int {
        self.start + 2 * self.cost + self.estimate().lead + k * self.interval()
    }

    /// Where a steady game stands after a frame where the display follows it: aimed at a
    /// slot, and released its lead before it.
    spec fn spaced(self, m: PacerModel, k: nat) -> bool {
        &&& m.freq == self.freq
        &&& m.cfg == self.cfg
        &&& m.frames >= 2
        &&& m.ema_us == self.estimate().ema_us
        &&& m.dev_us == 0
        &&& m.last_release == m.last_target - self.estimate().lead
        &&& 0 < m.last_release
        &&& m.last_target <= self.vrr_horizon(k)
    }

    /// Where a steady game stands after a frame: aimed at a vblank of the grid, and
    /// released its lead before it.
    spec fn settled(self, m: PacerModel, base: int, k: nat) -> bool {
        let lead = self.estimate().lead;
        &&& m.freq == self.freq
        &&& m.cfg == self.cfg
        &&& m.frames >= 2
        &&& m.ema_us == self.estimate().ema_us
        &&& m.dev_us == 0
        &&& m.last_release == m.last_target - lead
        &&& 0 < m.last_release
        &&& m.last_target <= self.horizon(k)
        &&& m.last_target == base + m.last_index * self.refresh()
        &&& m.hint_qpc == base + m.hint_index * self.refresh()
        &&& 0 <= m.hint_index
        &&& 0 < m.hint_qpc <= m.last_release
        &&& m.acc_den == self.divisor()
        &&& 0 <= m.acc_num < m.acc_den
        &&& !m.endless
    }
}

/// A length on the grid: between two of its points lie whole intervals.
proof fn lemma_vblank(g: SteadyGame, t: int)
    requires
        g.refresh() >= 1,
        g.epoch <= t,
    ensures
        g.epoch <= g.vblank(t) <= t < g.vblank(t) + g.refresh(),
{
    let r = g.refresh();
    let q = (t - g.epoch) / r;
    vstd::arithmetic::div_mod::lemma_fundamental_div_mod(t - g.epoch, r);
    vstd::arithmetic::div_mod::lemma_mod_bound(t - g.epoch, r);
    vstd::arithmetic::div_mod::lemma_div_pos_is_pos(t - g.epoch, r);
    assert(q * r == r * q && q * r >= 0) by (nonlinear_arith)
        requires
            q >= 0,
            r >= 1,
    ;
}

/// The constant estimate: its lead is not negative and the frames do not overload.
proof fn lemma_lead(g: SteadyGame)
    requires
        g.leaves_room(),
    ensures
        0 <= g.estimate().lead <= i64::MAX,
        !g.estimate().overloaded,
        g.estimate().dev_us == 0,
        g.cost > 0,
{
    let m = PacerModel { last_release: 0, frames: 1, ..PacerModel::fresh(g.cfg, g.freq) };
    let est = g.estimate();
    fixed::lemma_round_exact(0, ONE as int);
    assert(g.cfg.variance_multiplier * 0 == 0);
    assert(m.duration_us(g.cost) == pacer::ticks_to_us(g.cost, g.freq));
    let lead_us = fixed::sat64(est.ema_us + est.margin_us);
    assert(0 <= lead_us * g.freq) by (nonlinear_arith)
        requires
            0 <= lead_us,
            0 < g.freq,
    ;
    fixed::lemma_round_between(lead_us * g.freq, fixed::SECOND_US as int, 0, lead_us * g.freq);
}

/// What holds of the estimate and the rates of a game that keeps up.
proof fn lemma_estimate(g: SteadyGame)
    requires
        g.keeps_up(),
    ensures
        0 <= g.estimate().lead <= i64::MAX,
        !g.estimate().overloaded,
        g.estimate().dev_us == 0,
        g.refresh() >= 1,
        1 <= g.divisor() <= g.rate() <= i64::MAX,
        g.rate() / g.divisor() >= 1,
        g.cost > 0,
{
    lemma_lead(g);
    let (rate, d, r) = (g.rate(), g.divisor(), g.refresh());
    vstd::arithmetic::div_mod::lemma_div_is_ordered(d, rate, d);
    vstd::arithmetic::div_mod::lemma_div_by_self(d);
    let q = rate / d;
    assert(r >= 1) by (nonlinear_arith)
        requires
            0 < q * r,
            1 <= q,
    ;
}

/// The horizon moves on with the frames.
proof fn lemma_horizon(g: SteadyGame, j: nat, k: nat)
    requires
        g.keeps_up(),
        j <= k,
    ensures
        g.horizon(j) <= g.horizon(k),
{
    lemma_estimate(g);
    let (q, r) = (g.rate() / g.divisor(), g.refresh());
    assert(j * ((q + 1) * r) <= k * ((q + 1) * r)) by (nonlinear_arith)
        requires
            q >= 1,
            r >= 1,
            j <= k,
    ;
}

/// A frame that costs what the last ones cost leaves the estimate as it is.
proof fn lemma_estimate_stays(g: SteadyGame, m: PacerModel, end: int)
    requires
        g.leaves_room(),
        m.freq == g.freq,
        m.cfg == g.cfg,
        m.dev_us == 0,
        m.frames == 1 || m.ema_us == g.estimate().ema_us,
        end == m.last_release + g.cost,
    ensures
        m.estimate(end) == g.estimate(),
        !m.is_short(end),
{
    let f = PacerModel { last_release: 0, frames: 1, ..PacerModel::fresh(g.cfg, g.freq) };
    assert(m.sample_us(end) == f.sample_us(g.cost));
    let s = m.sample_us(end);
    fixed::lemma_round_exact(0, ONE as int);
    assert(0 * ONE == 0);
    lemma_interval_range(g.cfg);
    if m.frames != 1 {
        let delta = s - m.ema_us;
        assert(delta == 0);
        assert(m.cfg.ema_alpha * delta == 0) by (nonlinear_arith)
            requires
                delta == 0,
        ;
        assert((ONE - m.cfg.deviation_beta) * m.dev_us + m.cfg.deviation_beta * delta == 0)
            by (nonlinear_arith)
            requires
                delta == 0,
                m.dev_us == 0,
        ;
    }
    assert(m.estimate(end).ema_us == g.estimate().ema_us);
    assert(m.estimate(end).dev_us == g.estimate().dev_us);
}

/// The smallest whole number of intervals that holds a length, on top of whole intervals.
proof fn lemma_ceil_shifted(i: int, r: int, a: int)
    requires
        r >= 1,
    ensures
        fixed::ceil_quot(i * r + a, r) == i + fixed::ceil_quot(a, r),
{
    let q = (-a) / r;
    let t = (-a) % r;
    vstd::arithmetic::div_mod::lemma_fundamental_div_mod(-a, r);
    vstd::arithmetic::div_mod::lemma_mod_bound(-a, r);
    assert(-(i * r + a) == (q - i) * r + t) by (nonlinear_arith)
        requires
            -a == r * q + t,
    ;
    vstd::arithmetic::div_mod::lemma_fundamental_div_mod_converse(-(i * r + a), r, q - i, t);
}

/// A length that fits into `n` intervals needs no more of them.
proof fn lemma_ceil_fits(a: int, r: int, n: int)
    requires
        r >= 1,
        a <= n * r,
    ensures
        fixed::ceil_quot(a, r) <= n,
        fixed::ceil_quot(a, r) * r >= a,
        fixed::ceil_quot(a, r) * r < a + r,
{
    let q = (-a) / r;
    let t = (-a) % r;
    vstd::arithmetic::div_mod::lemma_fundamental_div_mod(-a, r);
    vstd::arithmetic::div_mod::lemma_mod_bound(-a, r);
    assert(-q <= n && (-q) * r >= a && (-q) * r < a + r) by (nonlinear_arith)
        requires
            -a == r * q + t,
            0 <= t < r,
            a <= n * r,
            r >= 1,
    ;
}

/// The first two frames: the first one leaves an anchor, the second is aimed at a vblank.
proof fn lemma_settles(g: SteadyGame)
    requires
        g.keeps_up(),
        g.horizon(2) <= i64::MAX,
    ensures
        g.settled(g.run(2), g.vblank(g.end(2)), 2),
        g.run(2).acc_num == g.rate() % g.divisor(),
{
    lemma_estimate(g);
    reveal_with_fuel(SteadyGame::run, 3);
    reveal_with_fuel(SteadyGame::end, 3);
    let r = g.refresh();
    let n = g.rate() / g.divisor();
    let lead = g.estimate().lead;
    let m = g.run(1);
    assert(0 < n * r) by (nonlinear_arith)
        requires
            n >= 1,
            r >= 1,
    ;
    assert((n + 1) * r == n * r + r) by (nonlinear_arith);
    assert(g.run(0) == PacerModel::fresh(g.cfg, g.freq));
    let end1 = g.start + g.cost;
    assert(g.end(1) == end1);
    assert(m.last_release == end1 && m.frames == 1 && m.cfg == g.cfg && m.freq == g.freq);
    let end = g.end(2);
    assert(end == end1 + g.cost);
    lemma_estimate_stays(g, m, end);
    let est = m.estimate(end);
    let h = g.hint(end);
    lemma_vblank(g, end);
    let vb = g.vblank(end);
    assert(h.last_vblank_qpc == vb);
    assert(h.refresh_qpc(m.freq) == r && h.rate() == g.rate());
    assert(m.cadence_rate(h) == g.divisor());
    assert(m.carried(g.divisor()) == 0) by {
        assert(0 * g.divisor() == 0);
    }
    assert(m.cadence_vblanks(h) == n);
    let a = end + lead - vb;
    assert(a <= a * r) by (nonlinear_arith)
        requires
            a >= 0,
            r >= 1,
    ;
    lemma_ceil_fits(a, r, a);
    let feasible = fixed::ceil_quot(a, r);
    let index = m.vblank_index(est, end, h);
    assert(index == n || index == feasible);
    assert(index * r >= feasible * r) by (nonlinear_arith)
        requires
            index >= feasible,
            r >= 1,
    ;
    assert(index >= 0) by (nonlinear_arith)
        requires
            index >= n,
            n >= 1,
    ;
    assert(index <= index * r) by (nonlinear_arith)
        requires
            index >= 0,
            r >= 1,
    ;
    assert(vb + feasible * r < end + lead + r);
    assert(vb + n * r <= end + n * r);
    assert(vb + index * r <= g.horizon(2));
    let plan = m.plan(end, Some(h));
    assert(plan.target == vb + index * r);
    assert(plan.wake == plan.target - lead);
    assert(plan.step == index);
    vstd::arithmetic::div_mod::lemma_mod_bound(g.rate(), g.divisor());
    let after = g.run(2);
    assert(after.hint_index == 0 && after.hint_index * r == 0);
    assert(after.hint_qpc == vb);
    assert(after.last_index == index);
    assert(after.last_target == vb + index * r);
    assert(after.last_release == after.last_target - lead);
    assert(after.ema_us == g.estimate().ema_us);
    assert(after.dev_us == 0);
    assert(after.frames == 2);
    assert(after.last_release >= end);
    assert(after.acc_den == g.divisor());
}

/// A steady game stays steady: the next frame is aimed at the vblank that the cadence is
/// due for.
proof fn lemma_stays_settled(g: SteadyGame, m: PacerModel, base: int, i0: int, k: nat)
    requires
        g.keeps_up(),
        g.settled(m, base, k),
        base == g.epoch + i0 * g.refresh(),
        base >= g.epoch,
        g.horizon(k + 1) <= i64::MAX,
    ensures
        ({
            let end = m.last_release + g.cost;
            let h = g.hint(end);
            let plan = m.plan(end, Some(h));
            let next = PacerModel { last_release: plan.wake, ..m.after(end, Some(h)) };
            &&& plan.step == (m.acc_num + g.rate()) / g.divisor()
            &&& !plan.late
            &&& plan.wake == plan.target - g.estimate().lead
            &&& plan.target == m.last_target + plan.step * g.refresh()
            &&& next.acc_num == (m.acc_num + g.rate()) % g.divisor()
            &&& g.settled(next, base, k + 1)
        }),
{
    lemma_estimate(g);
    let r = g.refresh();
    let d = g.divisor();
    let q = g.rate() / d;
    let lead = g.estimate().lead;
    let end = m.last_release + g.cost;
    let h = g.hint(end);
    let est = m.estimate(end);
    lemma_estimate_stays(g, m, end);
    // The room that is left on the counter.
    assert((k + 1) * ((q + 1) * r) == k * ((q + 1) * r) + (q + 1) * r) by (nonlinear_arith);
    assert((q + 1) * r == q * r + r) by (nonlinear_arith);
    assert(g.horizon(k + 1) == g.horizon(k) + (q + 1) * r);
    // The grid.
    assert(m.hint_qpc == g.epoch + (i0 + m.hint_index) * r) by (nonlinear_arith)
        requires
            m.hint_qpc == base + m.hint_index * r,
            base == g.epoch + i0 * r,
    ;
    assert(m.hint_index * r >= 0) by (nonlinear_arith)
        requires
            m.hint_index >= 0,
            r >= 1,
    ;
    assert(g.epoch <= end);
    lemma_vblank(g, end);
    let vb = g.vblank(end);
    let i = (end - g.epoch) / r;
    let j = i - i0;
    assert(vb == base + j * r) by (nonlinear_arith)
        requires
            vb == g.epoch + i * r,
            base == g.epoch + i0 * r,
            j == i - i0,
    ;
    assert(j >= m.hint_index) by (nonlinear_arith)
        requires
            base + m.hint_index * r <= end,
            end < base + j * r + r,
            r >= 1,
    ;
    assert(j <= j * r) by (nonlinear_arith)
        requires
            j >= 0,
            r >= 1,
    ;
    assert(vb <= i64::MAX);
    assert(h.last_vblank_qpc == vb);
    assert(h.refresh_qpc(m.freq) == r && h.rate() == g.rate());
    assert(m.cadence_rate(h) == d);
    assert(vb - m.hint_qpc == (j - m.hint_index) * r) by (nonlinear_arith)
        requires
            vb == base + j * r,
            m.hint_qpc == base + m.hint_index * r,
    ;
    fixed::lemma_round_exact(j - m.hint_index, r);
    assert(m.index_of_hint(h) == j);
    // The step.
    law_cadence_steps_are_even(m, h);
    let n = m.cadence_vblanks(h);
    assert(q <= n <= q + 1);
    assert(end + lead - vb == (m.last_index - j) * r + g.cost) by (nonlinear_arith)
        requires
            end == m.last_release + g.cost,
            m.last_release == base + m.last_index * r - lead,
            vb == base + j * r,
    ;
    lemma_ceil_shifted(m.last_index - j, r, g.cost);
    lemma_ceil_fits(g.cost, r, q);
    let feasible = m.feasible_index(est, end, h);
    assert(feasible <= m.last_index + n);
    let index = m.vblank_index(est, end, h);
    assert(index == m.last_index + n);
    assert(base + index * r == m.last_target + n * r) by (nonlinear_arith)
        requires
            index == m.last_index + n,
            m.last_target == base + m.last_index * r,
    ;
    assert(q * r <= n * r <= (q + 1) * r) by (nonlinear_arith)
        requires
            q <= n <= q + 1,
            r >= 1,
    ;
    let target = base + index * r;
    assert(vb + (index - j) * r == target) by (nonlinear_arith)
        requires
            vb == base + j * r,
            target == base + index * r,
    ;
    assert(target <= i64::MAX);
    assert(0 <= m.last_index && index <= index * r) by (nonlinear_arith)
        requires
            m.last_release == base + m.last_index * r - lead,
            m.last_release >= base + m.hint_index * r,
            m.hint_index >= 0,
            lead >= 0,
            r >= 1,
            index == m.last_index + n,
            n >= 0,
    ;
    let plan = m.plan(end, Some(h));
    assert(fixed::sat64(index - j) == index - j);
    assert(plan.target == target);
    assert(plan.wake == target - lead);
    assert(plan.step == n);
    let next = PacerModel { last_release: plan.wake, ..m.after(end, Some(h)) };
    assert(m.last_release != 0);
    assert(next.last_index == index);
    assert(next.hint_index == j);
    assert(next.hint_qpc == vb);
    assert(next.last_target == target);
    assert(next.frames >= 2);
    assert(next.ema_us == g.estimate().ema_us);
    assert(next.dev_us == 0);
    assert(next.last_release >= end);
    vstd::arithmetic::div_mod::lemma_mod_bound(m.acc_num + g.rate(), d);
}

/// Where a steady game stands after its `k`-th frame.
proof fn lemma_settled(g: SteadyGame, k: nat)
    requires
        g.keeps_up(),
        k >= 2,
        g.horizon(k) <= i64::MAX,
    ensures
        g.settled(g.run(k), g.vblank(g.end(2)), k),
        g.vblank(g.end(2)) >= g.epoch,
        g.run(k).acc_num == ((k - 1) * g.rate()) % g.divisor(),
    decreases k,
{
    lemma_estimate(g);
    let r = g.refresh();
    lemma_horizon(g, 2, k);
    lemma_settles(g);
    reveal_with_fuel(SteadyGame::end, 3);
    reveal_with_fuel(SteadyGame::run, 3);
    assert(g.end(2) == g.start + 2 * g.cost);
    lemma_vblank(g, g.end(2));
    if k == 2 {
        assert((k - 1) * g.rate() == g.rate());
    } else {
        let j = (k - 1) as nat;
        lemma_horizon(g, j, k);
        lemma_settled(g, j);
        let base = g.vblank(g.end(2));
        lemma_stays_settled(g, g.run(j), base, (g.end(2) - g.epoch) / r, j);
        let before = (k - 2) * g.rate();
        assert((k - 1) * g.rate() == before + g.rate()) by (nonlinear_arith)
            requires
                before == (k - 2) * g.rate(),
        ;
        vstd::arithmetic::div_mod::lemma_add_mod_noop(before, g.rate(), g.divisor());
        vstd::arithmetic::div_mod::lemma_add_mod_noop(
            before % g.divisor(),
            g.rate(),
            g.divisor(),
        );
        vstd::arithmetic::div_mod::lemma_mod_twice(before, g.divisor());
    }
}

/// From its third frame on, a game that keeps up is never late, and every frame advances
/// the vblanks of the cadence: the whole part of the ratio of the rates or one more, and
/// always that ratio where it is whole.
pub proof fn law_steady_game_keeps_the_cadence(g: SteadyGame, k: nat, d: PacerDecision)
    requires
        g.keeps_up(),
        k >= 3,
        g.horizon(k) <= i64::MAX,
        g.decides(k, d),
    ensures
        d.cadence_step == g.step(k),
        d.cadence_step == (((k - 2) * g.rate()) % g.divisor() + g.rate()) / g.divisor(),
        g.rate() / g.divisor() <= d.cadence_step <= g.rate() / g.divisor() + 1,
        g.rate() % g.divisor() == 0 ==> d.cadence_step == g.rate() / g.divisor(),
        !d.stats.late,
        d.target_tick_qpc == g.run((k - 1) as nat).last_target + d.cadence_step * g.refresh(),
        d.wake_qpc == d.target_tick_qpc - g.estimate().lead,
        g.run(k).last_release == d.wake_qpc,
{
    let j = (k - 1) as nat;
    lemma_estimate(g);
    let r = g.refresh();
    lemma_horizon(g, j, k);
    lemma_settled(g, j);
    let m = g.run(j);
    let base = g.vblank(g.end(2));
    let end = g.end(k);
    assert(end == m.last_release + g.cost);
    lemma_stays_settled(g, m, base, (g.end(2) - g.epoch) / r, j);
    lemma_estimate_stays(g, m, end);
    law_cadence_steps_are_even(m, g.hint(end));
    assert(m.carried(g.divisor()) == m.acc_num);
    assert(m.acc_num == ((k - 2) * g.rate()) % g.divisor());
    if g.rate() % g.divisor() == 0 {
        let c = g.divisor();
        vstd::arithmetic::div_mod::lemma_mul_mod_noop_right(k - 2, g.rate(), c);
        assert((k - 2) * 0 == 0);
        vstd::arithmetic::div_mod::lemma_small_mod(0, c as nat);
    }
}

/// The vblanks that frames of a game that keeps up advance together: neither is one lost
/// nor one gained, over any number of frames after the second.
pub proof fn law_steady_steps_add_up(g: SteadyGame, k: nat, n: nat)
    requires
        g.keeps_up(),
        k >= 2,
        g.horizon(k + n) <= i64::MAX,
    ensures
        g.steps(k, n) == (((k - 1) * g.rate()) % g.divisor() + n * g.rate()) / g.divisor(),
        n * g.rate() - g.divisor() < g.steps(k, n) * g.divisor() < n * g.rate() + g.divisor(),
{
    lemma_estimate(g);
    let c = g.divisor();
    let carry = ((k - 1) * g.rate()) % c;
    vstd::arithmetic::div_mod::lemma_mod_bound((k - 1) * g.rate(), c);
    lemma_walked(g, k, n);
    law_cadence_does_not_drift(carry, g.rate(), c, n);
    let whole = carry + n * g.rate();
    let total = g.steps(k, n);
    vstd::arithmetic::div_mod::lemma_fundamental_div_mod(whole, c);
    vstd::arithmetic::div_mod::lemma_mod_bound(whole, c);
    assert(c * total == total * c) by (nonlinear_arith);
}

/// The frames walk as the cadence does.
proof fn lemma_walked(g: SteadyGame, k: nat, n: nat)
    requires
        g.keeps_up(),
        k >= 2,
        g.horizon(k + n) <= i64::MAX,
    ensures
        ({
            let walk = cadence_walk(
                ((k - 1) * g.rate()) % g.divisor(),
                g.rate(),
                g.divisor(),
                n,
            );
            &&& g.steps(k, n) == walk.0
            &&& ((k + n - 1) * g.rate()) % g.divisor() == walk.1
        }),
    decreases n,
{
    if n > 0 {
        lemma_estimate(g);
        let r = g.refresh();
        let i = (n - 1) as nat;
        let j = k + i;
        lemma_horizon(g, j, k + n);
        lemma_walked(g, k, i);
        lemma_settled(g, j);
        lemma_settled(g, k + n);
        let base = g.vblank(g.end(2));
        lemma_stays_settled(g, g.run(j), base, (g.end(2) - g.epoch) / r, j);
        assert((j + 1) as nat == k + n);
        assert(g.end(k + n) == g.run(j).last_release + g.cost);
        assert(g.run(k + n).acc_num == (g.run(j).acc_num + g.rate()) % g.divisor());
    }
}

/// A frame that leaves room takes no longer than the interval.
proof fn lemma_fits_the_interval(g: SteadyGame)
    requires
        g.leaves_room(),
        g.cost <= i64::MAX,
    ensures
        0 < g.cost <= g.interval(),
{
    let (f, c) = (g.freq, g.cost);
    let us = pacer::ticks_to_us(c, f);
    let interval_us = g.cfg.interval_us();
    let ticks = fixed::round_quot(interval_us * f, 1_000_000_000_000);
    fixed::lemma_nearest(c * 1_000_000_000_000, f);
    fixed::lemma_nearest(interval_us * f, 1_000_000_000_000);
    assert(us + 1 <= interval_us);
    assert(us * f + f <= interval_us * f) by (nonlinear_arith)
        requires
            us + 1 <= interval_us,
            1 <= f,
    ;
    // Twice the cost is at most twice the interval and the two roundings.
    assert(2 * (c * 1_000_000_000_000) <= 2 * (us * f) + f);
    assert(2 * (interval_us * f) <= 2 * (ticks * 1_000_000_000_000) + 1_000_000_000_000);
    assert(c <= ticks);
}

/// The first two frames where the display follows the game.
proof fn lemma_spaces(g: SteadyGame)
    requires
        g.leaves_room(),
        g.cfg.mode == PacerMode::Vrr,
        0 <= g.start,
        g.cost <= i64::MAX,
        g.vrr_horizon(2) <= i64::MAX,
    ensures
        g.spaced(g.run(2), 2),
{
    lemma_lead(g);
    lemma_fits_the_interval(g);
    reveal_with_fuel(SteadyGame::run, 3);
    reveal_with_fuel(SteadyGame::end, 3);
    let (i, lead) = (g.interval(), g.estimate().lead);
    let m = g.run(1);
    let end1 = g.start + g.cost;
    assert(g.run(0) == PacerModel::fresh(g.cfg, g.freq));
    assert(m.last_release == end1 && m.last_target == end1 && m.frames == 1);
    let end = g.end(2);
    assert(end == end1 + g.cost);
    lemma_estimate_stays(g, m, end);
    pacer::lemma_first_slot(end1 + i, i, end + lead);
    let slot = pacer::first_slot(end1 + i, i, end + lead);
    assert(slot == end1 + i || slot - i < end + lead);
    let plan = m.plan(end, Some(g.hint(end)));
    assert(plan.target == slot);
    assert(plan.wake == slot - lead);
    let after = g.run(2);
    assert(after.last_target == slot);
    assert(after.last_release == slot - lead);
    assert(after.frames == 2);
    assert(after.ema_us == g.estimate().ema_us && after.dev_us == 0);
}

/// The next frame of a steady game is aimed at the next slot.
proof fn lemma_stays_spaced(g: SteadyGame, m: PacerModel, k: nat)
    requires
        g.leaves_room(),
        g.cfg.mode == PacerMode::Vrr,
        0 <= g.start,
        g.cost <= i64::MAX,
        g.spaced(m, k),
        g.vrr_horizon(k + 1) <= i64::MAX,
    ensures
        ({
            let end = m.last_release + g.cost;
            let h = g.hint(end);
            let plan = m.plan(end, Some(h));
            let next = PacerModel { last_release: plan.wake, ..m.after(end, Some(h)) };
            &&& !plan.late
            &&& plan.target == m.last_target + g.interval()
            &&& plan.wake == plan.target - g.estimate().lead
            &&& g.spaced(next, k + 1)
        }),
{
    lemma_lead(g);
    lemma_fits_the_interval(g);
    let (i, lead) = (g.interval(), g.estimate().lead);
    let end = m.last_release + g.cost;
    lemma_estimate_stays(g, m, end);
    assert((k + 1) * i == k * i + i) by (nonlinear_arith);
    assert(m.last_target + i >= end + lead);
    let plan = m.plan(end, Some(g.hint(end)));
    assert(plan.target == m.last_target + i);
    assert(plan.wake == plan.target - lead);
}

/// Where a steady game stands after its `k`-th frame where the display follows it.
proof fn lemma_spaced(g: SteadyGame, k: nat)
    requires
        g.leaves_room(),
        g.cfg.mode == PacerMode::Vrr,
        0 <= g.start,
        g.cost <= i64::MAX,
        k >= 2,
        g.vrr_horizon(k) <= i64::MAX,
    ensures
        g.spaced(g.run(k), k),
    decreases k,
{
    lemma_fits_the_interval(g);
    let i = g.interval();
    assert(2 * i <= k * i) by (nonlinear_arith)
        requires
            2 <= k,
            0 <= i,
    ;
    if k == 2 {
        lemma_spaces(g);
    } else {
        let j = (k - 1) as nat;
        assert(j * i <= k * i) by (nonlinear_arith)
            requires
                j <= k,
                0 <= i,
        ;
        lemma_spaced(g, j);
        lemma_stays_spaced(g, g.run(j), j);
        assert(g.end(k) == g.run(j).last_release + g.cost);
    }
}

/// Where the display follows the game, a game whose frames leave room is never late from
/// its third frame on, and its frames start one target interval apart.
pub proof fn law_steady_game_is_evenly_spaced(g: SteadyGame, k: nat, d: PacerDecision)
    requires
        g.cfg.mode == PacerMode::Vrr,
        g.leaves_room(),
        0 <= g.start,
        k >= 3,
        g.vrr_horizon(k) <= i64::MAX,
        g.decides(k, d),
    ensures
        !d.stats.late,
        d.target_tick_qpc == g.run((k - 1) as nat).last_target + g.cfg.interval_qpc(g.freq),
        d.wake_qpc == d.target_tick_qpc - g.estimate().lead,
        d.wake_qpc == g.run((k - 1) as nat).last_release + g.cfg.interval_qpc(g.freq),
        g.run(k).last_release == d.wake_qpc,
        g.run(k).last_target == d.target_tick_qpc,
{
    let j = (k - 1) as nat;
    let i = g.interval();
    lemma_lead(g);
    lemma_interval_range(g.cfg);
    pacer::lemma_ticks_of_positive(g.cfg.interval_us(), g.freq);
    assert(g.cost <= i64::MAX && j * i <= k * i) by (nonlinear_arith)
        requires
            g.start + 2 * g.cost + g.estimate().lead + k * i <= i64::MAX,
            0 <= g.start,
            0 < g.cost,
            0 <= g.estimate().lead,
            0 <= i,
            j <= k,
    ;
    lemma_spaced(g, j);
    lemma_stays_spaced(g, g.run(j), j);
    let end = g.end(k);
    assert(end == g.run(j).last_release + g.cost);
    lemma_estimate_stays(g, g.run(j), end);
}

/// The settings of a pacer on vblanks, for a frame rate cap.
pub open spec fn vsync_settings(target_fps: i64) -> PacerConfig {
    PacerConfig {
        target_fps,
        mode: PacerMode::FixedVsync,
        base_safety_margin_us: 300_000_000,
        variance_multiplier: 2_000_000,
        ema_alpha: 150_000,
        deviation_beta: 100_000,
    }
}

/// On a display of 120 Hz whose counter ticks ten million times a second, a game at a cap of
/// 40 or 50 frames per second keeps up as long as its frames cost between 50 µs and two
/// vblanks.
proof fn lemma_keeps_up_on_120(g: SteadyGame)
    requires
        g.cfg == vsync_settings(40_000_000) || g.cfg == vsync_settings(50_000_000),
        g.freq == 10_000_000,
        g.refresh_hz == 120_000_000,
        0 < g.epoch <= g.start,
        500 <= g.cost <= 166_666,
    ensures
        g.keeps_up(),
        g.refresh() == 83_333,
        g.rate() == 120_000_000,
        g.divisor() == g.cfg.target_fps,
        g.estimate().lead == g.cost + 3_000,
{
    assert(g.rate() == 120_000_000);
    vstd::arithmetic::div_mod::lemma_fundamental_div_mod_converse(
        2_000_000_000_120_000_000,
        240_000_000,
        8_333_333_333,
        200_000_000,
    );
    vstd::arithmetic::div_mod::lemma_fundamental_div_mod_converse(
        166_667_666_660_000_000,
        2_000_000_000_000,
        83_333,
        1_666_660_000_000,
    );
    assert(fixed::round_quot(1_000_000_000_000_000_000, 120_000_000) == 8_333_333_333);
    assert(fixed::round_quot(83_333_333_330_000_000, 1_000_000_000_000) == 83_333);
    assert(g.refresh() == 83_333);
    fixed::lemma_round_exact(25_000_000_000, 40_000_000);
    fixed::lemma_round_exact(20_000_000_000, 50_000_000);
    let us = g.cost * 100_000;
    assert(g.cost * 1_000_000_000_000 == us * 10_000_000);
    fixed::lemma_round_exact(us, 10_000_000);
    assert(pacer::ticks_to_us(g.cost, g.freq) == us);
    assert(120_000_000int / 40_000_000 == 3 && 120_000_000int / 50_000_000 == 2);
    fixed::lemma_round_exact(0, ONE as int);
    let est = g.estimate();
    assert(est.ema_us == us);
    assert(est.margin_us == 300_000_000);
    assert((us + 300_000_000) * 10_000_000 == (g.cost + 3_000) * 1_000_000_000_000);
    fixed::lemma_round_exact(g.cost + 3_000, 1_000_000_000_000);
}

/// A steady game at 40 frames per second on a display of 120 Hz advances three vblanks with
/// every frame.
pub proof fn law_forty_on_120_hz_steps_by_three(g: SteadyGame, k: nat, d: PacerDecision)
    requires
        g.cfg == vsync_settings(40_000_000),
        g.freq == 10_000_000,
        g.refresh_hz == 120_000_000,
        0 < g.epoch <= g.start,
        500 <= g.cost <= 166_666,
        3 <= k,
        g.start + k * 400_000 <= 0x7000_0000_0000_0000,
        g.decides(k, d),
    ensures
        d.cadence_step == 3,
        !d.stats.late,
{
    lemma_keeps_up_on_120(g);
    assert(120_000_000int / 40_000_000 == 3 && 120_000_000int % 40_000_000 == 0);
    assert(g.horizon(k) == g.start + 3 * g.cost + 3_000 + k * 333_332) by (nonlinear_arith)
        requires
            g.horizon(k) == g.start + 2 * g.cost + (g.cost + 3_000) + k * ((3 + 1) * 83_333),
    ;
    law_steady_game_keeps_the_cadence(g, k, d);
}

/// A steady game at 50 frames per second on a display of 120 Hz advances two or three
/// vblanks with every frame, and 2.4 on average: over `n` frames less than one vblank away
/// from that, so that from 20 frames on the average errs by less than 0.05.
pub proof fn law_fifty_on_120_hz_averages_two_and_two_fifths(
    g: SteadyGame,
    k: nat,
    n: nat,
    i: nat,
    d: PacerDecision,
)
    requires
        g.cfg == vsync_settings(50_000_000),
        g.freq == 10_000_000,
        g.refresh_hz == 120_000_000,
        0 < g.epoch <= g.start,
        500 <= g.cost <= 166_666,
        2 <= k < i <= k + n,
        g.start + (k + n) * 400_000 <= 0x7000_0000_0000_0000,
        g.decides(i, d),
    ensures
        2 <= d.cadence_step <= 3,
        d.cadence_step == g.step(i),
        !d.stats.late,
        24 * n - 10 < 10 * g.steps(k, n) < 24 * n + 10,
        n >= 20 ==> 235 * n < 100 * g.steps(k, n) < 245 * n,
{
    lemma_keeps_up_on_120(g);
    assert(120_000_000int / 50_000_000 == 2);
    assert(g.horizon(i) == g.start + 3 * g.cost + 3_000 + i * 249_999) by (nonlinear_arith)
        requires
            g.horizon(i) == g.start + 2 * g.cost + (g.cost + 3_000) + i * ((2 + 1) * 83_333),
    ;
    let last = k + n;
    assert(g.horizon(last) == g.start + 3 * g.cost + 3_000 + last * 249_999) by (nonlinear_arith)
        requires
            g.horizon(last) == g.start + 2 * g.cost + (g.cost + 3_000) + last * ((2 + 1) * 83_333),
    ;
    law_steady_game_keeps_the_cadence(g, i, d);
    law_steady_steps_add_up(g, k, n);
}

} // verus!
