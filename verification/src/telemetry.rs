//! Telemetry on the game's side: what is recorded about a present call, and where.

use vstd::prelude::*;

use crate::config::RuntimeConfig;
use crate::fixed;
use crate::pacer::PacerDecision;
use crate::shared_mem;
use crate::shared_mem::{RingModel, SharedHeader, SharedRing, TelemetryFrame};

verus! {

/// Record slots of a ring.
pub const RING_CAPACITY: usize = 4096;

/// The record of a present call that the limiter left alone.
pub open spec fn pass_through(start: i64, end: i64) -> TelemetryFrame {
    TelemetryFrame {
        present_start_qpc: start,
        present_end_qpc: end,
        release_qpc: end,
        flags: TelemetryFrame::FLAG_BYPASS,
        ..TelemetryFrame::blank()
    }
}

pub open spec fn bit(cond: bool, flag: u32) -> u32 {
    if cond {
        flag
    } else {
        0
    }
}

/// The flags of a paced frame.
pub open spec fn paced_flags(d: PacerDecision, vsync_overridden: bool) -> u32 {
    (bit(d.stats.bypass, TelemetryFrame::FLAG_BYPASS) | bit(
        d.stats.late,
        TelemetryFrame::FLAG_LATE,
    )) | bit(vsync_overridden, TelemetryFrame::FLAG_VSYNC_OVERRIDE)
}

/// The record of a present call that the limiter left alone.
pub fn pass_through_frame(present_start_qpc: i64, present_end_qpc: i64) -> (rec: TelemetryFrame)
    ensures
        rec == pass_through(present_start_qpc, present_end_qpc),
{
    TelemetryFrame {
        present_start_qpc,
        present_end_qpc,
        release_qpc: present_end_qpc,
        target_tick_qpc: 0,
        ema_duration_us_bits: 0,
        deviation_us_bits: 0,
        flags: TelemetryFrame::FLAG_BYPASS,
        _pad: 0,
    }
}

/// The record of a paced present call. The smoothed duration and deviation are given as
/// the bits of single-precision microseconds.
pub fn paced_frame(
    present_start_qpc: i64,
    present_end_qpc: i64,
    release_qpc: i64,
    decision: &PacerDecision,
    vsync_overridden: bool,
    ema_bits: u32,
    deviation_bits: u32,
) -> (rec: TelemetryFrame)
    ensures
        rec == (TelemetryFrame {
            present_start_qpc,
            present_end_qpc,
            release_qpc,
            target_tick_qpc: decision.target_tick_qpc,
            ema_duration_us_bits: ema_bits,
            deviation_us_bits: deviation_bits,
            flags: paced_flags(*decision, vsync_overridden),
            _pad: 0,
        }),
{
    let bypass: u32 = if decision.stats.bypass { TelemetryFrame::FLAG_BYPASS } else { 0 };
    let late: u32 = if decision.stats.late { TelemetryFrame::FLAG_LATE } else { 0 };
    let vsync: u32 = if vsync_overridden { TelemetryFrame::FLAG_VSYNC_OVERRIDE } else { 0 };
    TelemetryFrame {
        present_start_qpc,
        present_end_qpc,
        release_qpc,
        target_tick_qpc: decision.target_tick_qpc,
        ema_duration_us_bits: ema_bits,
        deviation_us_bits: deviation_bits,
        flags: bypass | late | vsync,
        _pad: 0,
    }
}

/// Each flag of a paced frame can be read back on its own.
pub proof fn law_flags_do_not_mix(d: PacerDecision, vsync_overridden: bool)
    ensures
        ({
            let flags = paced_flags(d, vsync_overridden);
            &&& (flags & TelemetryFrame::FLAG_BYPASS != 0) == d.stats.bypass
            &&& (flags & TelemetryFrame::FLAG_LATE != 0) == d.stats.late
            &&& (flags & TelemetryFrame::FLAG_VSYNC_OVERRIDE != 0) == vsync_overridden
        }),
{
    assert((0u32 | 0u32) | 0u32 == 0u32 && (1u32 | 0u32) | 0u32 == 1u32 && (0u32 | 2u32) | 0u32
        == 2u32 && (1u32 | 2u32) | 0u32 == 3u32 && (0u32 | 0u32) | 4u32 == 4u32 && (1u32 | 0u32)
        | 4u32 == 5u32 && (0u32 | 2u32) | 4u32 == 6u32 && (1u32 | 2u32) | 4u32 == 7u32)
        by (bit_vector);
    assert(0u32 & 1u32 == 0 && 1u32 & 1u32 != 0 && 2u32 & 1u32 == 0 && 3u32 & 1u32 != 0 && 4u32
        & 1u32 == 0 && 5u32 & 1u32 != 0 && 6u32 & 1u32 == 0 && 7u32 & 1u32 != 0) by (bit_vector);
    assert(0u32 & 2u32 == 0 && 1u32 & 2u32 == 0 && 2u32 & 2u32 != 0 && 3u32 & 2u32 != 0 && 4u32
        & 2u32 == 0 && 5u32 & 2u32 == 0 && 6u32 & 2u32 != 0 && 7u32 & 2u32 != 0) by (bit_vector);
    assert(0u32 & 4u32 == 0 && 1u32 & 4u32 == 0 && 2u32 & 4u32 == 0 && 3u32 & 4u32 == 0 && 4u32
        & 4u32 != 0 && 5u32 & 4u32 != 0 && 6u32 & 4u32 != 0 && 7u32 & 4u32 != 0) by (bit_vector);
}

/// Seconds without a heartbeat after which a panel is taken for dead.
pub const WATCHDOG_SECONDS: i128 = 3;

/// Ticks without a heartbeat after which a panel is taken for dead.
pub open spec fn watchdog_ticks(freq: int) -> int {
    fixed::within(WATCHDOG_SECONDS * freq, 0, u64::MAX as int)
}

/// The settings in force at `now`: those that were published, but with the limiter off
/// where the panel that published them is dead. A game is never left paced by a panel
/// that crashed.
pub open spec fn in_force(h: SharedHeader, now: int, freq: int, cfg: RuntimeConfig) -> bool {
    &&& h.holds_config(RuntimeConfig { enabled: h.enabled != 0, ..cfg })
    &&& cfg.enabled == (h.enabled != 0 && h.host_alive(now, watchdog_ticks(freq)))
}

/// The settings in force (see [`in_force`]).
pub fn config_in_force(h: &SharedHeader, now_qpc: u64, freq: i64) -> (cfg: RuntimeConfig)
    ensures
        in_force(*h, now_qpc as int, freq as int, cfg),
{
    let span: i128 = WATCHDOG_SECONDS * freq as i128;
    let timeout: u64 = if span < 0 {
        0
    } else if span > 0xffff_ffff_ffff_ffff {
        u64::MAX
    } else {
        span as u64
    };
    let published = h.config();
    RuntimeConfig { enabled: published.enabled && h.is_host_alive(now_qpc, timeout), ..published }
}

/// A panel that has gone without a word for three seconds no longer holds the game back;
/// one that beats, or settings that were published without a panel, stay in force.
pub proof fn law_dead_panel_lets_the_game_go(
    h: SharedHeader,
    now: u64,
    freq: i64,
    cfg: RuntimeConfig,
)
    requires
        in_force(h, now as int, freq as int, cfg),
        0 < freq <= 1_000_000_000_000_000_000,
    ensures
        h.host_present != 0 && now - h.host_heartbeat_qpc >= 3 * freq ==> !cfg.enabled,
        h.host_present == 0 || now - h.host_heartbeat_qpc < 3 * freq ==> h.holds_config(cfg),
{
}

/// The recorder of a game: a ring, once there is one.
#[derive(Debug)]
pub struct Telemetry {
    ring: Option<SharedRing>,
}

impl View for Telemetry {
    type V = Option<RingModel>;

    closed spec fn view(&self) -> Option<RingModel> {
        match self.ring {
            Some(ring) => Some(ring@),
            None => None,
        }
    }
}

impl Telemetry {
    pub fn new(ring: Option<SharedRing>) -> (t: Telemetry)
        ensures
            t@ == match ring {
                Some(r) => Some(r@),
                None => None,
            },
    {
        Telemetry { ring }
    }

    /// The ring, once there is one.
    pub fn ring(&self) -> (ring: Option<&SharedRing>)
        ensures
            ring is Some == self@ is Some,
            ring is Some ==> (ring->0)@ == self@->0,
    {
        match &self.ring {
            Some(ring) => Some(ring),
            None => None,
        }
    }

    /// The settings that were published; the limiter is off while there is no ring.
    pub fn config(&self) -> (cfg: RuntimeConfig)
        ensures
            self@ is None ==> cfg == RuntimeConfig::initial(),
            self@ is Some ==> (self@->0).header.holds_config(cfg),
    {
        match &self.ring {
            Some(ring) => ring.config(),
            None => RuntimeConfig::default(),
        }
    }

    /// The settings in force at `now_qpc` (see [`in_force`]); the limiter is off while
    /// there is no ring.
    pub fn live_config(&self, now_qpc: u64, freq: i64) -> (cfg: RuntimeConfig)
        ensures
            self@ is None ==> cfg == RuntimeConfig::initial(),
            self@ is Some ==> in_force((self@->0).header, now_qpc as int, freq as int, cfg),
    {
        match &self.ring {
            Some(ring) => config_in_force(ring.header(), now_qpc, freq),
            None => RuntimeConfig::default(),
        }
    }

    fn record(&mut self, rec: &TelemetryFrame)
        ensures
            old(self)@ is None ==> final(self)@ is None,
            old(self)@ is Some ==> final(self)@ == Some(
                shared_mem::ring_step(old(self)@->0, shared_mem::RingOp::Push(*rec)),
            ),
    {
        match &mut self.ring {
            Some(ring) => {
                let _ = ring.push(rec);
            },
            None => {},
        }
    }

    /// Records a present call that the limiter left alone.
    pub fn record_present(&mut self, present_start_qpc: i64, present_end_qpc: i64)
        ensures
            old(self)@ is None ==> final(self)@ is None,
            old(self)@ is Some ==> final(self)@ == Some(
                shared_mem::ring_step(
                    old(self)@->0,
                    shared_mem::RingOp::Push(pass_through(present_start_qpc, present_end_qpc)),
                ),
            ),
    {
        self.record(&pass_through_frame(present_start_qpc, present_end_qpc));
    }

    /// Records a paced present call (see [`paced_frame`]).
    pub fn record_paced(
        &mut self,
        present_start_qpc: i64,
        present_end_qpc: i64,
        release_qpc: i64,
        decision: &PacerDecision,
        vsync_overridden: bool,
        ema_bits: u32,
        deviation_bits: u32,
    )
        ensures
            old(self)@ is None ==> final(self)@ is None,
            old(self)@ is Some ==> final(self)@ == Some(
                shared_mem::ring_step(
                    old(self)@->0,
                    shared_mem::RingOp::Push(
                        TelemetryFrame {
                            present_start_qpc,
                            present_end_qpc,
                            release_qpc,
                            target_tick_qpc: decision.target_tick_qpc,
                            ema_duration_us_bits: ema_bits,
                            deviation_us_bits: deviation_bits,
                            flags: paced_flags(*decision, vsync_overridden),
                            _pad: 0,
                        },
                    ),
                ),
            ),
    {
        let rec = paced_frame(
            present_start_qpc,
            present_end_qpc,
            release_qpc,
            decision,
            vsync_overridden,
            ema_bits,
            deviation_bits,
        );
        self.record(&rec);
    }
}

/// The record of a call that was left alone holds its times, no delay and no target, and
/// its flags say that it was left alone and nothing else.
pub proof fn law_pass_through_has_no_delay(start: i64, end: i64)
    ensures
        ({
            let f = pass_through(start, end);
            &&& f.present_start_qpc == start
            &&& f.present_end_qpc == end
            &&& f.release_qpc == end
            &&& f.target_tick_qpc == 0
            &&& f.flags == 1
            &&& f.flags & TelemetryFrame::FLAG_BYPASS != 0
            &&& f.flags & TelemetryFrame::FLAG_LATE == 0
            &&& f.flags & TelemetryFrame::FLAG_VSYNC_OVERRIDE == 0
        }),
{
    assert(1u32 & 1u32 != 0 && 1u32 & 2u32 == 0 && 1u32 & 4u32 == 0) by (bit_vector);
}

} // verus!
