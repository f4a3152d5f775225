//! The driver's low-latency mode: when to configure it and with which parameters.
//!
//! The driver calls are the caller's; a device is an address, zero for none.

use vstd::prelude::*;

use crate::config::ReflexMode;
use crate::fixed::SECOND_US;

verus! {

pub const ID_NVAPI_INITIALIZE: u32 = 0x0150E828;

pub const ID_NVAPI_D3D_SET_SLEEP_MODE: u32 = 0xAC1CA9E0;

pub const ID_NVAPI_D3D_SET_LATENCY_MARKER: u32 = 0xE6F83861;

pub const ID_NVAPI_D3D_SLEEP: u32 = 0x852CD1D2;

/// Version word of [`NvSetSleepModeParams`]: its size in bytes and revision 1.
pub const SLEEP_MODE_VERSION: u32 = 0x1_001C;

/// Version word of [`NvLatencyMarkerParams`]: its size in bytes and revision 1.
pub const LATENCY_MARKER_VERSION: u32 = 0x1_0028;

/// Points of the frame pipeline that the driver is told about.
#[derive(Debug, Clone, Copy, PartialEq, Eq, Structural)]
pub enum LatencyMarkerType {
    SimulationStart,
    SimulationEnd,
    RendersubmitStart,
    RendersubmitEnd,
    PresentStart,
    PresentEnd,
    InputSample,
    TriggerFlash,
}

impl LatencyMarkerType {
    pub open spec fn code(self) -> u32 {
        match self {
            LatencyMarkerType::SimulationStart => 0,
            LatencyMarkerType::SimulationEnd => 1,
            LatencyMarkerType::RendersubmitStart => 2,
            LatencyMarkerType::RendersubmitEnd => 3,
            LatencyMarkerType::PresentStart => 4,
            LatencyMarkerType::PresentEnd => 5,
            LatencyMarkerType::InputSample => 6,
            LatencyMarkerType::TriggerFlash => 7,
        }
    }

    pub fn as_u32(self) -> (code: u32)
        ensures
            code == self.code(),
    {
        match self {
            LatencyMarkerType::SimulationStart => 0,
            LatencyMarkerType::SimulationEnd => 1,
            LatencyMarkerType::RendersubmitStart => 2,
            LatencyMarkerType::RendersubmitEnd => 3,
            LatencyMarkerType::PresentStart => 4,
            LatencyMarkerType::PresentEnd => 5,
            LatencyMarkerType::InputSample => 6,
            LatencyMarkerType::TriggerFlash => 7,
        }
    }
}

/// Parameters of the driver's sleep mode.
#[derive(Debug, Clone, Copy)]
pub struct NvSetSleepModeParams {
    pub version: u32,
    pub low_latency_mode: u8,
    pub low_latency_boost: u8,
    pub use_markers_to_optimize: u8,
    pub _reserved: u8,
    pub minimum_interval_us: u32,
    pub _reserved2: [u32; 4],
}

impl NvSetSleepModeParams {
    /// The parameters for a mode and an interval.
    pub open spec fn asks_for(&self, mode: ReflexMode, interval_us: int) -> bool {
        &&& self.version == SLEEP_MODE_VERSION
        &&& self.low_latency_mode == if mode == ReflexMode::Off {
            0int
        } else {
            1int
        }
        &&& self.low_latency_boost == if mode == ReflexMode::Boost {
            1int
        } else {
            0int
        }
        &&& self.use_markers_to_optimize == 1
        &&& self._reserved == 0
        &&& self.minimum_interval_us == interval_us
        &&& self._reserved2@ == seq![0u32, 0u32, 0u32, 0u32]
    }
}

impl Default for NvSetSleepModeParams {
    fn default() -> (p: NvSetSleepModeParams)
        ensures
            p.asks_for(ReflexMode::Off, 0),
    {
        let p = NvSetSleepModeParams {
            version: SLEEP_MODE_VERSION,
            low_latency_mode: 0,
            low_latency_boost: 0,
            use_markers_to_optimize: 1,
            _reserved: 0,
            minimum_interval_us: 0,
            _reserved2: [0, 0, 0, 0],
        };
        assert(p._reserved2@ =~= seq![0u32, 0u32, 0u32, 0u32]);
        p
    }
}

/// Parameters of a latency marker.
#[derive(Debug, Clone, Copy)]
pub struct NvLatencyMarkerParams {
    pub version: u32,
    pub frame_id: u64,
    pub marker_type: u32,
    pub _reserved: [u32; 4],
}

impl NvLatencyMarkerParams {
    pub open spec fn marks(&self, marker: int, frame_id: u64) -> bool {
        &&& self.version == LATENCY_MARKER_VERSION
        &&& self.frame_id == frame_id
        &&& self.marker_type == marker
        &&& self._reserved@ == seq![0u32, 0u32, 0u32, 0u32]
    }
}

impl Default for NvLatencyMarkerParams {
    fn default() -> (p: NvLatencyMarkerParams)
        ensures
            p.marks(0, 0),
    {
        let p = NvLatencyMarkerParams {
            version: LATENCY_MARKER_VERSION,
            frame_id: 0,
            marker_type: 0,
            _reserved: [0, 0, 0, 0],
        };
        assert(p._reserved@ =~= seq![0u32, 0u32, 0u32, 0u32]);
        p
    }
}

/// Which driver functions were found, and what is configured.
#[derive(Debug, Clone, Copy, PartialEq, Eq, Structural)]
pub struct ReflexController {
    pub available: bool,
    pub has_set_sleep_mode: bool,
    pub has_set_marker: bool,
    pub has_sleep: bool,
    pub active_mode: ReflexMode,
    /// Fixed-point rate that is configured.
    pub active_fps: i64,
    pub last_device: u64,
}

/// Shortest frame interval in whole microseconds that a rate allows; none while off.
pub open spec fn minimum_interval(mode: ReflexMode, target_fps: i64) -> int {
    if target_fps > 0 && mode != ReflexMode::Off {
        let us = SECOND_US as int / (target_fps as int);
        if us > u32::MAX {
            u32::MAX as int
        } else {
            us
        }
    } else {
        0
    }
}

impl ReflexController {
    /// A controller without a driver.
    pub fn unavailable() -> (c: ReflexController)
        ensures
            c == (ReflexController {
                available: false,
                has_set_sleep_mode: false,
                has_set_marker: false,
                has_sleep: false,
                active_mode: ReflexMode::Off,
                active_fps: 0,
                last_device: 0,
            }),
    {
        ReflexController {
            available: false,
            has_set_sleep_mode: false,
            has_set_marker: false,
            has_sleep: false,
            active_mode: ReflexMode::Off,
            active_fps: 0,
            last_device: 0,
        }
    }

    /// A controller for a driver that was initialised, with the functions it offers.
    pub fn init(has_set_sleep_mode: bool, has_set_marker: bool, has_sleep: bool) -> (c:
        ReflexController)
        ensures
            c == (ReflexController {
                available: true,
                has_set_sleep_mode,
                has_set_marker,
                has_sleep,
                active_mode: ReflexMode::Off,
                active_fps: 0,
                last_device: 0,
            }),
    {
        ReflexController {
            available: true,
            has_set_sleep_mode,
            has_set_marker,
            has_sleep,
            active_mode: ReflexMode::Off,
            active_fps: 0,
            last_device: 0,
        }
    }

    pub fn is_available(&self) -> (b: bool)
        ensures
            b == self.available,
    {
        self.available
    }

    /// The device is already configured like this.
    pub open spec fn is_configured(self, device: u64, mode: ReflexMode, target_fps: i64) -> bool {
        self.active_mode == mode && self.last_device == device && self.active_fps == target_fps
    }

    /// The driver has to be called to configure the device.
    pub open spec fn must_configure(self, device: u64, mode: ReflexMode, target_fps: i64) -> bool {
        &&& self.available
        &&& device != 0
        &&& !self.is_configured(device, mode, target_fps)
        &&& self.has_set_sleep_mode
    }

    /// The state after the driver answered a configuration with `status`; zero accepts it.
    pub open spec fn answered(
        self,
        device: u64,
        mode: ReflexMode,
        target_fps: i64,
        status: i32,
    ) -> ReflexController {
        if status == 0 {
            ReflexController {
                active_mode: mode,
                active_fps: target_fps,
                last_device: device,
                ..self
            }
        } else {
            self
        }
    }

    /// The parameters to configure `device` with, or none where nothing has to be done.
    pub fn configure(&self, device: u64, mode: ReflexMode, target_fps: i64) -> (call: Option<
        NvSetSleepModeParams,
    >)
        ensures
            call is Some == self.must_configure(device, mode, target_fps),
            call is Some ==> (call->0).asks_for(mode, minimum_interval(mode, target_fps)),
    {
        if !self.available || device == 0 {
            return None;
        }
        if self.active_mode == mode && self.last_device == device && self.active_fps
            == target_fps {
            return None;
        }
        if !self.has_set_sleep_mode {
            return None;
        }
        let mut params = NvSetSleepModeParams::default();
        params.low_latency_mode = if mode == ReflexMode::Off { 0 } else { 1 };
        params.low_latency_boost = if mode == ReflexMode::Boost { 1 } else { 0 };
        if target_fps > 0 && mode != ReflexMode::Off {
            let us: i128 = SECOND_US / target_fps as i128;
            proof {
                vstd::arithmetic::div_mod::lemma_div_pos_is_pos(SECOND_US as int, target_fps as int);
                vstd::arithmetic::div_mod::lemma_div_nonincreasing(
                    SECOND_US as int,
                    target_fps as int,
                );
            }
            params.minimum_interval_us = if us > 0xffff_ffff { u32::MAX } else { us as u32 };
        }
        Some(params)
    }

    /// Takes the driver's answer to a configuration. Returns the state to publish: 2
    /// while a mode is active, 1 otherwise; none where the driver refused.
    pub fn configured(&mut self, device: u64, mode: ReflexMode, target_fps: i64, status: i32) -> (
    state: Option<u32>)
        ensures
            state == if status != 0 {
                None
            } else if mode == ReflexMode::Off {
                Some(1u32)
            } else {
                Some(2u32)
            },
            *final(self) == old(self).answered(device, mode, target_fps, status),
    {
        if status != 0 {
            return None;
        }
        self.active_mode = mode;
        self.active_fps = target_fps;
        self.last_device = device;
        if mode == ReflexMode::Off { Some(1) } else { Some(2) }
    }

    /// The parameters of a marker, or none where the driver takes none.
    pub fn set_marker(&self, device: u64, marker: LatencyMarkerType, frame_id: u64) -> (call: Option<
        NvLatencyMarkerParams,
    >)
        ensures
            call is Some == (self.available && device != 0 && self.has_set_marker),
            call is Some ==> (call->0).marks(marker.code() as int, frame_id),
    {
        if !self.available || device == 0 || !self.has_set_marker {
            return None;
        }
        let mut params = NvLatencyMarkerParams::default();
        params.frame_id = frame_id;
        params.marker_type = marker.as_u32();
        Some(params)
    }

    /// Whether the driver's sleep is to be called for `device`.
    pub fn sleep(&self, device: u64) -> (call: bool)
        ensures
            call == (self.available && device != 0 && self.has_sleep),
    {
        self.available && device != 0 && self.has_sleep
    }
}

/// A configuration that the driver accepted is not repeated; one that it refused is
/// tried again.
pub proof fn law_accepted_configuration_is_not_repeated(
    c: ReflexController,
    device: u64,
    mode: ReflexMode,
    target_fps: i64,
    status: i32,
)
    ensures
        c.answered(device, mode, target_fps, status).must_configure(device, mode, target_fps) == (
        status != 0 && c.must_configure(device, mode, target_fps)),
{
}

/// The interval that the driver is told is the whole microseconds of a frame at the target
/// rate, and nothing where the mode is off or there is no target.
pub proof fn law_interval_is_a_frame_at_the_target(mode: ReflexMode, target_fps: i64)
    ensures
        mode == ReflexMode::Off || target_fps <= 0 ==> minimum_interval(mode, target_fps) == 0,
        mode != ReflexMode::Off && target_fps > 0 ==> {
            let us = minimum_interval(mode, target_fps);
            &&& us * target_fps <= 1_000_000_000_000
            &&& us < u32::MAX ==> 1_000_000_000_000 < (us + 1) * target_fps
            &&& us <= u32::MAX
        },
{
    if target_fps > 0 {
        let f = target_fps as int;
        let us = 1_000_000_000_000int / f;
        vstd::arithmetic::div_mod::lemma_fundamental_div_mod(1_000_000_000_000, f);
        vstd::arithmetic::div_mod::lemma_mod_bound(1_000_000_000_000, f);
        let kept = minimum_interval(ReflexMode::On, target_fps);
        assert(us * f <= 1_000_000_000_000 < (us + 1) * f && kept * f <= us * f) by (nonlinear_arith)
            requires
                1_000_000_000_000 == f * us + 1_000_000_000_000int % f,
                0 <= 1_000_000_000_000int % f < f,
                kept <= us,
        ;
    }
}

/// The driver is called for a device that it offers the mode for and that is not configured
/// like this yet: any change of device, mode or rate is one.
pub proof fn law_every_change_is_configured(
    c: ReflexController,
    device: u64,
    mode: ReflexMode,
    target_fps: i64,
)
    requires
        c.available,
        c.has_set_sleep_mode,
        device != 0,
    ensures
        c.last_device != device ==> c.must_configure(device, mode, target_fps),
        c.active_mode != mode ==> c.must_configure(device, mode, target_fps),
        c.active_fps != target_fps ==> c.must_configure(device, mode, target_fps),
        c.last_device == device && c.active_mode == mode && c.active_fps == target_fps
            ==> !c.must_configure(device, mode, target_fps),
        !c.must_configure(0, mode, target_fps),
        !(ReflexController { available: false, ..c }).must_configure(device, mode, target_fps),
        !(ReflexController { has_set_sleep_mode: false, ..c }).must_configure(
            device,
            mode,
            target_fps,
        ),
{
}

/// Markers are told apart by their codes, which count from the start of a frame's
/// simulation to the end of its present call.
pub proof fn law_markers_are_told_apart(a: LatencyMarkerType, b: LatencyMarkerType)
    ensures
        a != b ==> a.code() != b.code(),
        a.code() < 8,
        LatencyMarkerType::SimulationStart.code() < LatencyMarkerType::SimulationEnd.code()
            < LatencyMarkerType::RendersubmitStart.code() < LatencyMarkerType::RendersubmitEnd.code()
            < LatencyMarkerType::PresentStart.code() < LatencyMarkerType::PresentEnd.code()
            < LatencyMarkerType::InputSample.code() < LatencyMarkerType::TriggerFlash.code(),
{
}

/// What the driver is told: its mode is on unless it is off, boosted only where that is
/// asked for, and markers are always used.
pub proof fn law_driver_is_told_the_mode(p: NvSetSleepModeParams, mode: ReflexMode, us: int)
    requires
        p.asks_for(mode, us),
    ensures
        p.version == 0x1_001C,
        mode == ReflexMode::Off ==> p.low_latency_mode == 0 && p.low_latency_boost == 0,
        mode == ReflexMode::On ==> p.low_latency_mode == 1 && p.low_latency_boost == 0,
        mode == ReflexMode::Boost ==> p.low_latency_mode == 1 && p.low_latency_boost == 1,
        p.use_markers_to_optimize == 1,
        p.minimum_interval_us == us,
{
}

/// A marker tells its frame and its point.
pub proof fn law_marker_tells_its_frame(p: NvLatencyMarkerParams, marker: int, frame_id: u64)
    requires
        p.marks(marker, frame_id),
    ensures
        p.version == 0x1_0028,
        p.frame_id == frame_id,
        p.marker_type == marker,
{
}

} // verus!
