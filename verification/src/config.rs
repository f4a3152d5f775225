//! Settings that the control panel publishes to a running game, and the profile
//! that is kept for each game.

use vstd::prelude::*;

use crate::pacer::PacerMode;

verus! {

/// Prefix of the name of the mapping that holds the shared region of a process.
pub const SM_NAME_PREFIX: &'static str = "Local\\iFrameSM_";

/// Latency mode of the NVIDIA driver.
#[derive(Debug, Clone, Copy, PartialEq, Eq, Structural)]
pub enum ReflexMode {
    Off,
    On,
    Boost,
}

impl Default for ReflexMode {
    fn default() -> (mode: ReflexMode)
        ensures
            mode == ReflexMode::Off,
    {
        ReflexMode::Off
    }
}

impl ReflexMode {
    pub open spec fn code(self) -> u32 {
        match self {
            ReflexMode::Off => 0,
            ReflexMode::On => 1,
            ReflexMode::Boost => 2,
        }
    }

    /// The mode with the given code; unknown codes mean off.
    pub fn from_u32(val: u32) -> (mode: ReflexMode)
        ensures
            val <= 2 ==> mode.code() == val,
            val > 2 ==> mode == ReflexMode::Off,
    {
        match val {
            1 => ReflexMode::On,
            2 => ReflexMode::Boost,
            _ => ReflexMode::Off,
        }
    }

    pub fn as_u32(self) -> (val: u32)
        ensures
            val == self.code(),
    {
        match self {
            ReflexMode::Off => 0,
            ReflexMode::On => 1,
            ReflexMode::Boost => 2,
        }
    }
}

/// Live settings, read by the game's side once per frame. Rates are fixed-point
/// (see [`crate::fixed`]).
#[derive(Debug, Clone, Copy, PartialEq, Eq, Structural)]
pub struct RuntimeConfig {
    pub enabled: bool,
    pub mode: PacerMode,
    pub target_fps: i64,
    /// Refresh rate of the display as reported, or overridden by the user.
    pub refresh_hz: i64,
    /// While pacing, present without vertical sync, tearing where the swapchain
    /// supports it. Off passes the game's arguments through.
    pub vsync_override: bool,
    /// Force the frame-latency waitable object on new swapchains.
    pub force_waitable: bool,
    pub reflex_mode: ReflexMode,
    /// Show the in-game overlay.
    pub overlay_enabled: bool,
}

impl Default for RuntimeConfig {
    fn default() -> (cfg: RuntimeConfig)
        ensures
            cfg == RuntimeConfig::initial(),
    {
        RuntimeConfig {
            enabled: false,
            mode: PacerMode::FixedVsync,
            target_fps: 60_000_000,
            refresh_hz: 60_000_000,
            vsync_override: true,
            force_waitable: false,
            reflex_mode: ReflexMode::Off,
            overlay_enabled: false,
        }
    }
}

impl RuntimeConfig {
    /// The settings of a game that nothing was published to: the limiter is off.
    pub open spec fn initial() -> RuntimeConfig {
        RuntimeConfig {
            enabled: false,
            mode: PacerMode::FixedVsync,
            target_fps: 60_000_000,
            refresh_hz: 60_000_000,
            vsync_override: true,
            force_waitable: false,
            reflex_mode: ReflexMode::Off,
            overlay_enabled: false,
        }
    }
}

/// Settings kept for a game, under the name of its executable.
#[derive(Debug)]
pub struct GameProfile {
    pub exe_name: String,
    pub target_fps: i64,
    pub mode: PacerMode,
    pub vsync_override: bool,
    pub force_waitable_object: bool,
    pub reflex_mode: ReflexMode,
    pub overlay_enabled: bool,
}

/// The contents of a [`GameProfile`].
pub struct ProfileModel {
    pub exe_name: Seq<char>,
    pub target_fps: i64,
    pub mode: PacerMode,
    pub vsync_override: bool,
    pub force_waitable_object: bool,
    pub reflex_mode: ReflexMode,
    pub overlay_enabled: bool,
}

impl View for GameProfile {
    type V = ProfileModel;

    open spec fn view(&self) -> ProfileModel {
        ProfileModel {
            exe_name: self.exe_name@,
            target_fps: self.target_fps,
            mode: self.mode,
            vsync_override: self.vsync_override,
            force_waitable_object: self.force_waitable_object,
            reflex_mode: self.reflex_mode,
            overlay_enabled: self.overlay_enabled,
        }
    }
}

impl Clone for GameProfile {
    fn clone(&self) -> (p: GameProfile)
        ensures
            p@ == self@,
    {
        GameProfile {
            exe_name: self.exe_name.clone(),
            target_fps: self.target_fps,
            mode: self.mode,
            vsync_override: self.vsync_override,
            force_waitable_object: self.force_waitable_object,
            reflex_mode: self.reflex_mode,
            overlay_enabled: self.overlay_enabled,
        }
    }
}

impl Default for GameProfile {
    fn default() -> (p: GameProfile)
        ensures
            p@ == (ProfileModel {
                exe_name: Seq::empty(),
                target_fps: 60_000_000,
                mode: PacerMode::FixedVsync,
                vsync_override: true,
                force_waitable_object: false,
                reflex_mode: ReflexMode::Off,
                overlay_enabled: false,
            }),
    {
        GameProfile {
            exe_name: String::new(),
            target_fps: 60_000_000,
            mode: PacerMode::FixedVsync,
            vsync_override: true,
            force_waitable_object: false,
            reflex_mode: ReflexMode::Off,
            overlay_enabled: false,
        }
    }
}

/// A code identifies its mode, so a mode that is written as its code is read back.
pub proof fn law_mode_codes_are_distinct(a: ReflexMode, b: ReflexMode, p: PacerMode, q: PacerMode)
    ensures
        a.code() == b.code() ==> a == b,
        p.code() == q.code() ==> p == q,
        a.code() <= 2,
        p.code() <= 2,
{
}

} // verus!
