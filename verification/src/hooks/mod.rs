//! Decisions behind the presentation hooks.
//!
//! Reading and writing another module's memory, and calling into it, is the caller's
//! business; here stands what to write and which call to make. Addresses are numbers,
//! zero for none.

pub mod d3d9;
pub mod detour;
pub mod dxgi;
pub mod opengl;
pub mod vtable;
pub mod vulkan;

use vstd::prelude::*;

use crate::config::RuntimeConfig;
use crate::pacer::PacerMode;

verus! {

/// State of the hooks that is published to the panel: 1 where they are installed, 2
/// where that failed.
pub open spec fn published_state(installed: bool) -> u32 {
    if installed {
        1
    } else {
        2
    }
}

/// The outcome of installing all hooks.
#[derive(Debug, Clone, Copy, PartialEq, Eq, Structural)]
pub struct InstallOutcome {
    pub ok: bool,
    /// State to publish, where there is a region to publish it in.
    pub state: Option<u32>,
}

/// Judges an installation. Without telemetry nothing is installed; the hooks of older
/// interfaces are opportunistic, so only those of the swapchains decide.
pub fn install(telemetry_ok: bool, dxgi_ok: bool) -> (outcome: InstallOutcome)
    ensures
        outcome.ok == (telemetry_ok && dxgi_ok),
        outcome.state == if telemetry_ok {
            Some(published_state(dxgi_ok))
        } else {
            None
        },
{
    if !telemetry_ok {
        return InstallOutcome { ok: false, state: None };
    }
    InstallOutcome { ok: dxgi_ok, state: Some(if dxgi_ok { 1 } else { 2 }) }
}

/// Presents are paced under these settings.
pub open spec fn is_pacing(cfg: RuntimeConfig) -> bool {
    cfg.enabled && cfg.mode != PacerMode::Bypass
}

/// Whether presents are paced under these settings.
pub fn paces(cfg: &RuntimeConfig) -> (b: bool)
    ensures
        b == is_pacing(*cfg),
{
    cfg.enabled && cfg.mode != PacerMode::Bypass
}

} // verus!
