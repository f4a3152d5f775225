//! The pacing engine: one pacing step per present call, under the settings that are
//! published at that moment.
//!
//! The real present call has already returned when [`Engine::pace`] is asked; where it
//! delays, the caller sleeps until the decision's wake-up and reports it with
//! [`Engine::released`].

use vstd::prelude::*;

use crate::config::RuntimeConfig;
use crate::fixed::ONE;
use crate::pacer::{JitPacer, PacerConfig, PacerDecision, PacerMode, PacerModel, VBlankHint};

verus! {

/// Longest delay that is ever applied (fixed-point µs): a sane one is shorter than a
/// frame interval.
pub const LONGEST_WAIT_US: i64 = 100_000_000_000;

/// Number of paced frames whose schedule is logged.
pub const LOG_FRAMES: u32 = 12;

/// The pacer settings that published settings stand for.
pub open spec fn pacer_settings(cfg: RuntimeConfig) -> PacerConfig {
    PacerConfig {
        target_fps: if cfg.target_fps > 0 {
            cfg.target_fps
        } else {
            60_000_000
        },
        mode: cfg.mode,
        base_safety_margin_us: 300_000_000,
        variance_multiplier: 2_000_000,
        ema_alpha: 150_000,
        deviation_beta: 100_000,
    }
}

/// The pacer settings for published settings; a rate that is not positive means 60.
pub fn pacer_config(cfg: &RuntimeConfig) -> (p: PacerConfig)
    ensures
        p == pacer_settings(*cfg),
{
    let mut p = PacerConfig::default();
    p.target_fps = if cfg.target_fps > 0 { cfg.target_fps } else { 60_000_000 };
    p.mode = cfg.mode;
    p
}

/// A refresh rate that the user set replaces the reported one; the phase of the grid
/// stays.
pub open spec fn overridden(hint: Option<VBlankHint>, cfg: RuntimeConfig) -> Option<VBlankHint> {
    match hint {
        Some(h) if cfg.refresh_hz > ONE => Some(
            VBlankHint { refresh_hz: cfg.refresh_hz, ..h },
        ),
        other => other,
    }
}

/// Applies the user's refresh rate to a hint.
pub fn override_hint(hint: Option<VBlankHint>, cfg: &RuntimeConfig) -> (h: Option<VBlankHint>)
    ensures
        h == overridden(hint, *cfg),
{
    match hint {
        Some(h) => {
            if cfg.refresh_hz > 1_000_000 {
                Some(VBlankHint { refresh_hz: cfg.refresh_hz, last_vblank_qpc: h.last_vblank_qpc })
            } else {
                Some(h)
            }
        },
        None => None,
    }
}

/// Owns the pacer of a game.
pub struct Engine {
    pacer: JitPacer,
    cfg: RuntimeConfig,
    logged: u32,
}

/// The state of an [`Engine`].
pub struct EngineModel {
    pub pacer: PacerModel,
    pub cfg: RuntimeConfig,
    pub logged: u32,
}

impl View for Engine {
    type V = EngineModel;

    closed spec fn view(&self) -> EngineModel {
        EngineModel { pacer: self.pacer@, cfg: self.cfg, logged: self.logged }
    }
}

impl EngineModel {
    /// The pacer under the settings `cfg`.
    pub open spec fn configured(self, cfg: RuntimeConfig) -> PacerModel {
        if self.cfg == cfg {
            self.pacer
        } else {
            PacerModel { cfg: pacer_settings(cfg), ..self.pacer }
        }
    }

    /// The limiter steps aside at a step.
    pub open spec fn bypasses(
        self,
        end: int,
        cfg: RuntimeConfig,
        hint: Option<VBlankHint>,
    ) -> bool {
        self.configured(cfg).bypasses(end, overridden(hint, cfg))
    }

    /// The engine after a step. A frame that is not delayed counts as released when its
    /// present call returned.
    pub open spec fn after(
        self,
        end: int,
        cfg: RuntimeConfig,
        hint: Option<VBlankHint>,
    ) -> EngineModel {
        let stepped = self.configured(cfg).after(end, overridden(hint, cfg));
        EngineModel {
            pacer: if self.bypasses(end, cfg, hint) {
                PacerModel { last_release: end, ..stepped }
            } else {
                stepped
            },
            cfg,
            logged: self.logged,
        }
    }
}

impl Engine {
    /// An engine without history.
    pub fn new(cfg: &RuntimeConfig, qpc_frequency: i64) -> (engine: Engine)
        ensures
            engine@ == (EngineModel {
                pacer: PacerModel::fresh(pacer_settings(*cfg), qpc_frequency as int),
                cfg: *cfg,
                logged: 0,
            }),
    {
        Engine { pacer: JitPacer::new(pacer_config(cfg), qpc_frequency), cfg: *cfg, logged: 0 }
    }

    /// One pacing step. The caller sleeps until the decision's wake-up and reports the
    /// release. Where the limiter steps aside there is no decision to carry out: the frame
    /// is released at `t_end`.
    pub fn pace(
        &mut self,
        t_start: i64,
        t_end: i64,
        cfg: &RuntimeConfig,
        hint: Option<VBlankHint>,
    ) -> (decision: Option<PacerDecision>)
        ensures
            decision is None <==> old(self)@.bypasses(t_end as int, *cfg, hint),
            decision is Some ==> old(self)@.configured(*cfg).decides(
                t_end as int,
                overridden(hint, *cfg),
                decision->0,
            ),
            decision is Some ==> decision->0.wake_qpc > t_end,
            final(self)@ == old(self)@.after(t_end as int, *cfg, hint),
    {
        let hint = override_hint(hint, cfg);
        if self.cfg != *cfg {
            self.pacer.set_config(pacer_config(cfg));
            self.cfg = *cfg;
        }
        let decision = self.pacer.on_present_complete(t_start, t_end, hint);
        if decision.stats.bypass {
            self.pacer.mark_released(t_end);
            return None;
        }
        Some(decision)
    }

    /// Reports the release of a delayed frame; returns whether its schedule is logged.
    pub fn released(&mut self, release_qpc: i64) -> (log: bool)
        ensures
            log == (old(self)@.logged < LOG_FRAMES),
            final(self)@ == (EngineModel {
                pacer: PacerModel { last_release: release_qpc as int, ..old(self)@.pacer },
                cfg: old(self)@.cfg,
                logged: if log {
                    (old(self)@.logged + 1) as u32
                } else {
                    old(self)@.logged
                },
            }),
    {
        self.pacer.mark_released(release_qpc);
        if self.logged < LOG_FRAMES {
            self.logged = self.logged + 1;
            true
        } else {
            false
        }
    }
}

} // verus!
