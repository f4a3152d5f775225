//! Settings of the frame generator, and the header through which the control centre and
//! the game share them. Fractions are fixed-point (see [`crate::fixed`]).

use vstd::prelude::*;

use crate::shared_mem;

verus! {

/// "AIF1".
pub const AIF_MAGIC: u32 = 0x41494631;

pub const AIF_VERSION: u32 = 1;

/// Name of the mapping that holds the header.
pub const SHMEM_NAME: &'static str = "Local\\AllInFrameSharedMemory";

/// Near clipping plane, in metres.
pub const DEPTH_NEAR: i64 = 100_000;

/// Far clipping plane, in metres.
pub const DEPTH_FAR: i64 = 1_000_000_000;

/// How strongly uncovered edges are filled in.
pub const INPAINTING: i64 = 800_000;

/// Settings of the frame generator.
#[derive(Debug, Clone, Copy, PartialEq, Eq, Structural)]
pub struct WarpConfig {
    pub enabled: bool,
    /// Angle per count of horizontal motion, in radians.
    pub yaw_sensitivity: i64,
    /// Angle per count of vertical motion, in radians.
    pub pitch_sensitivity: i64,
    /// Horizontal field of view.
    pub fov_degrees: i64,
    pub depth_near: i64,
    pub depth_far: i64,
    /// Near depths are large.
    pub is_reverse_z: bool,
    /// Leave flat elements in place.
    pub hud_mask_enabled: bool,
    /// Depths below this belong to flat elements.
    pub hud_depth_threshold: i64,
    pub inpainting_strength: i64,
    /// Frames shown for each frame of the game.
    pub fps_multiplier: u32,
    /// Swing the picture without any motion of the mouse.
    pub continuous_test_wave: bool,
    /// A change asks for one visible jolt.
    pub test_pulse: u32,
    /// Show depths instead of the picture.
    pub debug_depth: bool,
}

impl WarpConfig {
    /// The settings of a new installation.
    pub open spec fn initial() -> WarpConfig {
        WarpConfig {
            enabled: true,
            yaw_sensitivity: 1_500,
            pitch_sensitivity: 1_500,
            fov_degrees: 90_000_000,
            depth_near: DEPTH_NEAR,
            depth_far: DEPTH_FAR,
            is_reverse_z: false,
            hud_mask_enabled: false,
            hud_depth_threshold: 5_000,
            inpainting_strength: INPAINTING,
            fps_multiplier: 1,
            continuous_test_wave: false,
            test_pulse: 0,
            debug_depth: false,
        }
    }
}

impl Default for WarpConfig {
    fn default() -> (cfg: WarpConfig)
        ensures
            cfg == WarpConfig::initial(),
    {
        WarpConfig {
            enabled: true,
            yaw_sensitivity: 1_500,
            pitch_sensitivity: 1_500,
            fov_degrees: 90_000_000,
            depth_near: DEPTH_NEAR,
            depth_far: DEPTH_FAR,
            is_reverse_z: false,
            hud_mask_enabled: false,
            hud_depth_threshold: 5_000,
            inpainting_strength: INPAINTING,
            fps_multiplier: 1,
            continuous_test_wave: false,
            test_pulse: 0,
            debug_depth: false,
        }
    }
}

/// The shared header. Switches are zero or not.
#[derive(Debug, Clone, Copy, PartialEq, Eq, Structural)]
pub struct AifSharedHeader {
    pub magic: u32,
    pub version: u32,
    pub enabled: u32,
    pub yaw_sensitivity: i64,
    pub pitch_sensitivity: i64,
    pub fov_degrees: i64,
    pub is_reverse_z: u32,
    pub hud_mask_enabled: u32,
    pub hud_depth_threshold: i64,
    pub fps_multiplier: u32,
    pub test_pulse: u32,
    pub continuous_test_wave: u32,
    pub debug_depth: u32,
    /// Zero while idle, one once the hooks are in place, two if they could not be.
    pub hook_state: u32,
    /// A depth buffer was found.
    pub depth_found: u32,
    pub game_fps: i64,
    pub warped_fps: i64,
    pub frames_warped: u64,
    pub last_frame_qpc: u64,
}

fn flag(b: bool) -> (f: u32)
    ensures
        f == shared_mem::flag_of(b),
{
    if b {
        1
    } else {
        0
    }
}

impl Default for AifSharedHeader {
    fn default() -> (h: AifSharedHeader)
        ensures
            h == AifSharedHeader::blank(),
            h.config_of() == WarpConfig::initial(),
    {
        AifSharedHeader {
            magic: AIF_MAGIC,
            version: AIF_VERSION,
            enabled: 1,
            yaw_sensitivity: 1_500,
            pitch_sensitivity: 1_500,
            fov_degrees: 90_000_000,
            is_reverse_z: 0,
            hud_mask_enabled: 0,
            hud_depth_threshold: 5_000,
            fps_multiplier: 1,
            test_pulse: 0,
            continuous_test_wave: 0,
            debug_depth: 0,
            hook_state: 0,
            depth_found: 0,
            game_fps: 0,
            warped_fps: 0,
            frames_warped: 0,
            last_frame_qpc: 0,
        }
    }
}

impl AifSharedHeader {
    /// A new header.
    pub open spec fn blank() -> AifSharedHeader {
        AifSharedHeader {
            magic: AIF_MAGIC,
            version: AIF_VERSION,
            enabled: 1,
            yaw_sensitivity: 1_500,
            pitch_sensitivity: 1_500,
            fov_degrees: 90_000_000,
            is_reverse_z: 0,
            hud_mask_enabled: 0,
            hud_depth_threshold: 5_000,
            fps_multiplier: 1,
            test_pulse: 0,
            continuous_test_wave: 0,
            debug_depth: 0,
            hook_state: 0,
            depth_found: 0,
            game_fps: 0,
            warped_fps: 0,
            frames_warped: 0,
            last_frame_qpc: 0,
        }
    }

    /// The header with settings written to it.
    pub open spec fn with_config(self, cfg: WarpConfig) -> AifSharedHeader {
        AifSharedHeader {
            enabled: shared_mem::flag_of(cfg.enabled),
            yaw_sensitivity: cfg.yaw_sensitivity,
            pitch_sensitivity: cfg.pitch_sensitivity,
            fov_degrees: cfg.fov_degrees,
            is_reverse_z: shared_mem::flag_of(cfg.is_reverse_z),
            hud_mask_enabled: shared_mem::flag_of(cfg.hud_mask_enabled),
            hud_depth_threshold: cfg.hud_depth_threshold,
            fps_multiplier: cfg.fps_multiplier,
            test_pulse: cfg.test_pulse,
            continuous_test_wave: shared_mem::flag_of(cfg.continuous_test_wave),
            debug_depth: shared_mem::flag_of(cfg.debug_depth),
            ..self
        }
    }

    /// The settings in the header. Clipping planes and inpainting are not shared.
    pub open spec fn config_of(self) -> WarpConfig {
        WarpConfig {
            enabled: self.enabled != 0,
            yaw_sensitivity: self.yaw_sensitivity,
            pitch_sensitivity: self.pitch_sensitivity,
            fov_degrees: self.fov_degrees,
            depth_near: DEPTH_NEAR,
            depth_far: DEPTH_FAR,
            is_reverse_z: self.is_reverse_z != 0,
            hud_mask_enabled: self.hud_mask_enabled != 0,
            hud_depth_threshold: self.hud_depth_threshold,
            inpainting_strength: INPAINTING,
            fps_multiplier: self.fps_multiplier,
            continuous_test_wave: self.continuous_test_wave != 0,
            test_pulse: self.test_pulse,
            debug_depth: self.debug_depth != 0,
        }
    }

    /// Writes settings to the header.
    pub fn publish_config(&mut self, cfg: &WarpConfig)
        ensures
            *final(self) == old(self).with_config(*cfg),
    {
        self.enabled = flag(cfg.enabled);
        self.yaw_sensitivity = cfg.yaw_sensitivity;
        self.pitch_sensitivity = cfg.pitch_sensitivity;
        self.fov_degrees = cfg.fov_degrees;
        self.is_reverse_z = flag(cfg.is_reverse_z);
        self.hud_mask_enabled = flag(cfg.hud_mask_enabled);
        self.hud_depth_threshold = cfg.hud_depth_threshold;
        self.fps_multiplier = cfg.fps_multiplier;
        self.continuous_test_wave = flag(cfg.continuous_test_wave);
        self.test_pulse = cfg.test_pulse;
        self.debug_depth = flag(cfg.debug_depth);
    }

    /// Reads the settings.
    pub fn read_config(&self) -> (cfg: WarpConfig)
        ensures
            cfg == self.config_of(),
    {
        WarpConfig {
            enabled: self.enabled != 0,
            yaw_sensitivity: self.yaw_sensitivity,
            pitch_sensitivity: self.pitch_sensitivity,
            fov_degrees: self.fov_degrees,
            depth_near: DEPTH_NEAR,
            depth_far: DEPTH_FAR,
            is_reverse_z: self.is_reverse_z != 0,
            hud_mask_enabled: self.hud_mask_enabled != 0,
            hud_depth_threshold: self.hud_depth_threshold,
            inpainting_strength: INPAINTING,
            fps_multiplier: self.fps_multiplier,
            continuous_test_wave: self.continuous_test_wave != 0,
            test_pulse: self.test_pulse,
            debug_depth: self.debug_depth != 0,
        }
    }

    /// Asks for one visible jolt.
    pub fn trigger_pulse(&mut self)
        ensures
            *final(self) == (AifSharedHeader {
                test_pulse: if old(self).test_pulse == u32::MAX {
                    0
                } else {
                    (old(self).test_pulse + 1) as u32
                },
                ..*old(self)
            }),
    {
        self.test_pulse = self.test_pulse.wrapping_add(1);
    }
}

/// Published settings are read back, except for those that are not shared.
pub proof fn law_warp_config_round_trips(h: AifSharedHeader, cfg: WarpConfig)
    ensures
        h.with_config(cfg).config_of() == (WarpConfig {
            depth_near: DEPTH_NEAR,
            depth_far: DEPTH_FAR,
            inpainting_strength: INPAINTING,
            ..cfg
        }),
{
}

/// Settings do not touch what the game reports.
pub proof fn law_settings_leave_reports_alone(h: AifSharedHeader, cfg: WarpConfig)
    ensures
        h.with_config(cfg).hook_state == h.hook_state,
        h.with_config(cfg).depth_found == h.depth_found,
        h.with_config(cfg).game_fps == h.game_fps,
        h.with_config(cfg).warped_fps == h.warped_fps,
        h.with_config(cfg).frames_warped == h.frames_warped,
        h.with_config(cfg).last_frame_qpc == h.last_frame_qpc,
        h.with_config(cfg).magic == h.magic,
        h.with_config(cfg).version == h.version,
{
}

/// Settings are told to the game one by one: each word of the header is that setting's, and
/// what is on is one and what is off is zero.
pub proof fn law_settings_have_their_words(h: AifSharedHeader, cfg: WarpConfig)
    ensures
        ({
            let w = h.with_config(cfg);
            &&& w.yaw_sensitivity == cfg.yaw_sensitivity
            &&& w.pitch_sensitivity == cfg.pitch_sensitivity
            &&& w.fov_degrees == cfg.fov_degrees
            &&& w.hud_depth_threshold == cfg.hud_depth_threshold
            &&& w.fps_multiplier == cfg.fps_multiplier
            &&& w.test_pulse == cfg.test_pulse
            &&& w.enabled == 1 <==> cfg.enabled
            &&& w.enabled == 0 <==> !cfg.enabled
            &&& w.is_reverse_z == 1 <==> cfg.is_reverse_z
            &&& w.is_reverse_z == 0 <==> !cfg.is_reverse_z
            &&& w.hud_mask_enabled == 1 <==> cfg.hud_mask_enabled
            &&& w.hud_mask_enabled == 0 <==> !cfg.hud_mask_enabled
            &&& w.continuous_test_wave == 1 <==> cfg.continuous_test_wave
            &&& w.continuous_test_wave == 0 <==> !cfg.continuous_test_wave
            &&& w.debug_depth == 1 <==> cfg.debug_depth
            &&& w.debug_depth == 0 <==> !cfg.debug_depth
        }),
        h.config_of().depth_near == 100_000,
        h.config_of().depth_far == 1_000_000_000,
{
}

} // verus!
