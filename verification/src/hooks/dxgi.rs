//! Swapchain hooks: which swapchain is followed, how its presents are issued, and what
//! is recorded about them.

use vstd::prelude::*;

use crate::config::{ReflexMode, RuntimeConfig};
use crate::fixed;
use crate::fixed::{round_div, ONE, SECOND_US};
use crate::hooks;
use crate::hooks::paces;
use crate::pacer;
use crate::pacer::{wide_qpc_to_us, PacerMode};

verus! {

/// Entries of the swapchain's function table.
pub const SLOT_PRESENT: u64 = 8;

pub const SLOT_RESIZE_BUFFERS: u64 = 13;

pub const SLOT_PRESENT1: u64 = 22;

/// Entries of the factory's function table.
pub const SLOT_FACTORY_CREATE: u64 = 10;

pub const SLOT_FACTORY_FOR_HWND: u64 = 15;

pub const SLOT_FACTORY_FOR_CORE_WINDOW: u64 = 16;

pub const SLOT_FACTORY_FOR_COMPOSITION: u64 = 24;

/// Present flag that lets a present tear.
pub const PRESENT_ALLOW_TEARING: u32 = 0x200;

/// Swapchain flag of one that may tear.
pub const FLAG_ALLOW_TEARING: u32 = 0x800;

/// Swapchain flag of one with a frame-latency waitable object.
pub const FLAG_WAITABLE_OBJECT: u32 = 0x40;

/// What is known of the followed swapchain.
#[derive(Debug, Clone, Copy, PartialEq, Eq, Structural)]
pub struct SwapchainCaps {
    pub windowed: bool,
    pub tearing: bool,
    pub waitable: bool,
    /// False until queried, and again after the buffers were resized.
    pub valid: bool,
}

/// The swapchains of a game.
#[derive(Debug, Clone, Copy, PartialEq, Eq, Structural)]
pub struct SwapchainTracker {
    /// The swapchain whose presents are recorded and paced.
    pub active: u64,
    pub caps: SwapchainCaps,
    /// The swapchain whose queue depth was last limited, and whether that was tried.
    pub latency_chain: u64,
    pub latency_tried: bool,
}

/// How a present call starts.
#[derive(Debug, Clone, Copy, PartialEq, Eq, Structural)]
pub struct PresentStart {
    /// The call belongs to the followed swapchain.
    pub active: bool,
    /// It is paced.
    pub pacing: bool,
    /// The queue depth of the swapchain has to be limited to one frame first.
    pub limit_latency: bool,
    /// The swapchain has to be queried, and reported with
    /// [`SwapchainTracker::caps_queried`], before its arguments are settled.
    pub query_caps: bool,
}

/// What is recorded about a present call.
#[derive(Debug, Clone, Copy, PartialEq, Eq, Structural)]
pub enum PresentRecord {
    Nothing,
    PassThrough,
    /// Paced; says whether vertical sync was overridden.
    Paced { vsync_overridden: bool },
}

impl SwapchainTracker {
    pub fn new() -> (t: SwapchainTracker)
        ensures
            t == (SwapchainTracker {
                active: 0,
                caps: SwapchainCaps {
                    windowed: true,
                    tearing: false,
                    waitable: false,
                    valid: false,
                },
                latency_chain: 0,
                latency_tried: false,
            }),
    {
        SwapchainTracker {
            active: 0,
            caps: SwapchainCaps { windowed: true, tearing: false, waitable: false, valid: false },
            latency_chain: 0,
            latency_tried: false,
        }
    }

    /// The followed swapchain, once `this` has presented: without one, the first that
    /// presents is followed.
    pub open spec fn followed(self, this: u64) -> u64 {
        if self.active == 0 {
            this
        } else {
            self.active
        }
    }

    /// Whether `this` is the followed swapchain.
    pub fn is_active_swapchain(&mut self, this: u64) -> (b: bool)
        ensures
            *final(self) == (SwapchainTracker { active: old(self).followed(this), ..*old(self) }),
            b == (old(self).followed(this) == this),
    {
        if self.active == 0 {
            self.active = this;
        }
        self.active == this
    }

    /// Sets what is known of the followed swapchain.
    pub fn set_caps_for_test(&mut self, windowed: bool, tearing: bool, waitable: bool)
        ensures
            *final(self) == (SwapchainTracker {
                caps: SwapchainCaps { windowed, tearing, waitable, valid: true },
                ..*old(self)
            }),
    {
        self.caps = SwapchainCaps { windowed, tearing, waitable, valid: true };
    }

    /// Takes the answer to a query of the followed swapchain.
    pub fn caps_queried(&mut self, windowed: bool, tearing: bool, waitable: bool)
        ensures
            *final(self) == (SwapchainTracker {
                caps: SwapchainCaps { windowed, tearing, waitable, valid: true },
                ..*old(self)
            }),
    {
        self.caps = SwapchainCaps { windowed, tearing, waitable, valid: true };
    }

    /// The arguments of a paced present: our timer owns the timing, so the game's own
    /// wait for the display is removed where the swapchain allows it. Exclusive
    /// fullscreen without tearing keeps it.
    pub open spec fn overridden(self, sync_interval: u32, flags: u32, enabled: bool) -> (u32, u32) {
        if !enabled {
            (sync_interval, flags)
        } else if self.caps.tearing {
            (0, flags | PRESENT_ALLOW_TEARING)
        } else if self.caps.windowed {
            (0, flags)
        } else {
            (sync_interval, flags)
        }
    }

    /// The sync interval and flags to present with. `enabled` is the user's choice to
    /// override vertical sync.
    pub fn override_sync(&self, sync_interval: u32, flags: u32, enabled: bool) -> (args: (u32, u32))
        ensures
            args == self.overridden(sync_interval, flags, enabled),
    {
        if !enabled {
            return (sync_interval, flags);
        }
        if self.caps.tearing {
            (0, flags | PRESENT_ALLOW_TEARING)
        } else if self.caps.windowed {
            (0, flags)
        } else {
            (sync_interval, flags)
        }
    }

    /// A swapchain was created: the newest one is followed, and its creation flags tell
    /// what it can do.
    pub fn on_swapchain_created(&mut self, swapchain: u64, windowed: bool, flags: u32)
        ensures
            *final(self) == (SwapchainTracker {
                active: swapchain,
                caps: SwapchainCaps {
                    windowed,
                    tearing: flags & FLAG_ALLOW_TEARING != 0,
                    waitable: flags & FLAG_WAITABLE_OBJECT != 0,
                    valid: true,
                },
                ..*old(self)
            }),
    {
        self.active = swapchain;
        self.caps = SwapchainCaps {
            windowed,
            tearing: flags & FLAG_ALLOW_TEARING != 0,
            waitable: flags & FLAG_WAITABLE_OBJECT != 0,
            valid: true,
        };
    }

    /// The queue depth of `this` has not been limited yet.
    pub open spec fn latency_due(self, this: u64) -> bool {
        !(self.latency_chain == this && self.latency_tried)
    }

    /// Starts a present call of the swapchain `this`.
    pub fn begin_present(&mut self, this: u64, cfg: &RuntimeConfig) -> (start: PresentStart)
        ensures
            start.active == (old(self).followed(this) == this),
            start.pacing == (start.active && hooks::is_pacing(*cfg)),
            start.limit_latency == (start.pacing && old(self).latency_due(this)),
            start.query_caps == (start.pacing && cfg.vsync_override && !old(self).caps.valid
                && old(self).followed(this) != 0),
            *final(self) == (SwapchainTracker {
                active: old(self).followed(this),
                latency_chain: if start.limit_latency {
                    this
                } else {
                    old(self).latency_chain
                },
                latency_tried: old(self).latency_tried || start.limit_latency,
                ..*old(self)
            }),
    {
        let active: bool = self.is_active_swapchain(this);
        let pacing: bool = active && paces(cfg);
        let limit_latency: bool = pacing && !(self.latency_chain == this && self.latency_tried);
        if limit_latency {
            self.latency_chain = this;
            self.latency_tried = true;
        }
        PresentStart {
            active,
            pacing,
            limit_latency,
            query_caps: pacing && cfg.vsync_override && !self.caps.valid && self.active != 0,
        }
    }

    /// The sync interval and flags of a present call; those of the game where it is not
    /// paced.
    pub open spec fn args_of(
        self,
        start: PresentStart,
        sync_interval: u32,
        flags: u32,
        cfg: RuntimeConfig,
    ) -> (u32, u32) {
        if start.pacing {
            self.overridden(sync_interval, flags, cfg.vsync_override)
        } else {
            (sync_interval, flags)
        }
    }

    /// The sync interval and flags of a present call (see [`Self::args_of`]).
    pub fn present_args(
        &self,
        start: &PresentStart,
        sync_interval: u32,
        flags: u32,
        cfg: &RuntimeConfig,
    ) -> (args: (u32, u32))
        ensures
            args == self.args_of(*start, sync_interval, flags, *cfg),
    {
        if start.pacing {
            self.override_sync(sync_interval, flags, cfg.vsync_override)
        } else {
            (sync_interval, flags)
        }
    }

    /// The buffers were resized with the result `hr`; a success renegotiates what the
    /// swapchain can do.
    pub fn resized(&mut self, hr: i32)
        ensures
            *final(self) == (SwapchainTracker {
                caps: SwapchainCaps {
                    valid: old(self).caps.valid && hr < 0,
                    ..old(self).caps
                },
                ..*old(self)
            }),
    {
        if hr >= 0 {
            self.caps.valid = false;
        }
    }
}

/// What is recorded about a present call that was issued with the sync interval
/// `sync`; `paced` says whether the engine took it.
pub fn present_record(start: &PresentStart, paced: bool, sync: u32) -> (record: PresentRecord)
    ensures
        record == if start.pacing && paced {
            PresentRecord::Paced { vsync_overridden: sync == 0 }
        } else if start.active {
            PresentRecord::PassThrough
        } else {
            PresentRecord::Nothing
        },
{
    if start.pacing && paced {
        PresentRecord::Paced { vsync_overridden: sync == 0 }
    } else if start.active {
        PresentRecord::PassThrough
    } else {
        PresentRecord::Nothing
    }
}

/// The creation flags to use in place of `flags`: those with the waitable object, where
/// the user wants it and the game did not ask for it. `None` passes the game's
/// description through.
pub fn force_waitable_desc(flags: Option<u32>, wanted: bool) -> (forced: Option<u32>)
    ensures
        forced is Some == (flags is Some && wanted && flags->0 & FLAG_WAITABLE_OBJECT == 0),
        forced is Some ==> forced->0 == flags->0 | FLAG_WAITABLE_OBJECT,
{
    match flags {
        None => None,
        Some(f) => {
            if !wanted || f & FLAG_WAITABLE_OBJECT != 0 {
                None
            } else {
                Some(f | FLAG_WAITABLE_OBJECT)
            }
        },
    }
}

/// The flags to resize buffers with: a swapchain that was created with the waitable
/// object has to be resized with it.
pub fn resize_flags(flags: u32, wanted: bool) -> (forced: u32)
    ensures
        forced == if wanted && flags & FLAG_WAITABLE_OBJECT == 0 {
            flags | FLAG_WAITABLE_OBJECT
        } else {
            flags
        },
{
    if wanted && flags & FLAG_WAITABLE_OBJECT == 0 {
        flags | FLAG_WAITABLE_OBJECT
    } else {
        flags
    }
}

/// Forcing the waitable object keeps every flag of the game and adds that one alone; a
/// swapchain that has it is left alone the next time.
pub proof fn law_forcing_preserves_flags(flags: u32)
    ensures
        (flags | FLAG_WAITABLE_OBJECT) & FLAG_WAITABLE_OBJECT != 0,
        (flags | FLAG_WAITABLE_OBJECT) & flags == flags,
        (flags | FLAG_WAITABLE_OBJECT) & !FLAG_WAITABLE_OBJECT == flags & !FLAG_WAITABLE_OBJECT,
{
    assert((flags | 0x40u32) & 0x40u32 != 0 && (flags | 0x40u32) & flags == flags && (flags
        | 0x40u32) & !0x40u32 == flags & !0x40u32) by (bit_vector);
}

/// With the limiter off, or the override disabled, the game's present arguments pass
/// through untouched.
pub proof fn law_disabled_override_is_pass_through(
    t: SwapchainTracker,
    start: PresentStart,
    sync_interval: u32,
    flags: u32,
    cfg: RuntimeConfig,
)
    requires
        !start.pacing || !cfg.vsync_override,
    ensures
        t.args_of(start, sync_interval, flags, cfg) == (sync_interval, flags),
{
}

/// The newest created swapchain is followed, and stays followed whoever else presents.
pub proof fn law_newest_swapchain_is_followed(t: SwapchainTracker, newest: u64, other: u64)
    requires
        newest != 0,
    ensures
        (SwapchainTracker { active: newest, ..t }).followed(other) == newest,
{
}

/// Frame time shown on the overlay, smoothed.
#[derive(Debug, Clone, Copy, PartialEq, Eq, Structural)]
pub struct HudClock {
    pub last_present_qpc: i64,
    /// Whole microseconds.
    pub smooth_ft_us: u64,
}

/// Figures shown on the overlay: fixed-point milliseconds and frames per second.
#[derive(Debug, Clone, Copy, PartialEq, Eq, Structural)]
pub struct HudFigures {
    pub ft_ms: i128,
    pub fps: i128,
}

impl HudClock {
    pub fn new() -> (c: HudClock)
        ensures
            c == (HudClock { last_present_qpc: 0, smooth_ft_us: 16_666 }),
    {
        HudClock { last_present_qpc: 0, smooth_ft_us: 16_666 }
    }

    /// Time since the last present (fixed-point µs); a default where there is none.
    pub open spec fn sample_us(self, now: i64, freq: int) -> int {
        if 0 < self.last_present_qpc < now {
            pacer::ticks_to_us(now - self.last_present_qpc, freq)
        } else {
            16_666 * ONE
        }
    }

    /// The smoothed frame time (fixed-point µs): nine parts of the old and one of the
    /// new.
    pub open spec fn smoothed_us(self, now: i64, freq: int) -> int {
        fixed::round_quot(9 * self.smooth_ft_us * ONE + self.sample_us(now, freq), 10)
    }

    /// Takes a present at `now`.
    pub fn tick(&mut self, now: i64, freq: i64) -> (figures: HudFigures)
        requires
            freq > 0,
        ensures
            ({
                let smooth = old(self).smoothed_us(now, freq as int);
                &&& figures.ft_ms == fixed::round_quot(smooth, 1000)
                &&& figures.fps == if smooth > 100 * ONE {
                    fixed::round_quot(SECOND_US * ONE, smooth)
                } else {
                    0
                }
                &&& final(self).last_present_qpc == now
                &&& final(self).smooth_ft_us == if smooth / (ONE as int) > u64::MAX {
                    u64::MAX as int
                } else {
                    smooth / (ONE as int)
                }
                // A second is as many frames as the rate says, each of the time shown.
                &&& -1000 <= 2 * (1000 * figures.ft_ms - smooth) <= 1000
                &&& smooth > 100_000_000 ==> -smooth <= 2 * (figures.fps * smooth
                    - 1_000_000_000_000_000_000) <= smooth
                &&& smooth <= 100_000_000 ==> figures.fps == 0
                &&& final(self).smooth_ft_us < u64::MAX ==> 1_000_000 * final(self).smooth_ft_us
                    <= smooth < 1_000_000 * (final(self).smooth_ft_us + 1)
            }),
    {
        let prev: i64 = self.last_present_qpc;
        self.last_present_qpc = now;
        let dt: i128 = if prev > 0 && now > prev {
            wide_qpc_to_us(now as i128 - prev as i128, freq)
        } else {
            16_666 * ONE
        };
        proof {
            if prev > 0 && now > prev {
                let a = (now - prev) * SECOND_US;
                assert(0 * freq <= a <= a * freq) by (nonlinear_arith)
                    requires
                        a >= 0,
                        freq > 0,
                ;
                fixed::lemma_round_between(a, freq as int, 0, a);
            }
        }
        let smooth: i128 = round_div(9 * self.smooth_ft_us as i128 * ONE + dt, 10);
        proof {
            let a = 9 * self.smooth_ft_us * ONE + dt;
            fixed::lemma_round_between(a, 10, 0, a);
            fixed::lemma_nearest(smooth as int, 1000);
            if smooth > 0 {
                fixed::lemma_nearest(SECOND_US * ONE, smooth as int);
            }
        }
        let whole: i128 = smooth / ONE;
        self.smooth_ft_us = if whole > 0xffff_ffff_ffff_ffff { u64::MAX } else { whole as u64 };
        HudFigures {
            ft_ms: round_div(smooth, 1000),
            fps: if smooth > 100 * ONE { round_div(SECOND_US * ONE, smooth) } else { 0 },
        }
    }
}

/// The name of a pacing mode on the overlay.
pub fn mode_label(mode: PacerMode) -> (s: &'static str)
    ensures
        s@ == match mode {
            PacerMode::FixedVsync => "FixedVsync"@,
            PacerMode::Vrr => "VRR"@,
            PacerMode::Bypass => "Bypass"@,
        },
{
    match mode {
        PacerMode::FixedVsync => "FixedVsync",
        PacerMode::Vrr => "VRR",
        PacerMode::Bypass => "Bypass",
    }
}

/// The state of the driver's latency mode on the overlay.
pub fn reflex_label(available: bool, mode: ReflexMode) -> (s: &'static str)
    ensures
        s@ == if !available {
            "N/A"@
        } else {
            match mode {
                ReflexMode::Off => "Off"@,
                ReflexMode::On => "On"@,
                ReflexMode::Boost => "Boost"@,
            }
        },
{
    if !available {
        return "N/A";
    }
    match mode {
        ReflexMode::Off => "Off",
        ReflexMode::On => "On",
        ReflexMode::Boost => "Boost",
    }
}

} // verus!
