//! The verified core of iFrame: frame pacing, the telemetry ring shared between
//! a game and its control panel, frame-time statistics, the panel itself apart from
//! its drawing, the frame generator, and the decisions that surround them.

use vstd::prelude::*;

pub mod anticheat;
pub mod bench;
pub mod bench_laws;
pub mod cli;
pub mod config;
pub mod display;
pub mod display_laws;
pub mod engine;
pub mod etw;
pub mod fixed;
pub mod gamepad;
pub mod hook_laws;
pub mod hooks;
pub mod injector;
pub mod live;
pub mod live_laws;
pub mod overlay;
pub mod pacer;
pub mod pacer_laws;
pub mod pacing_laws;
pub mod panel;
pub mod panel_laws;
pub mod profiles;
pub mod ranks;
pub mod reflex;
pub mod shared_mem;
pub mod stats;
pub mod steady;
pub mod telemetry;
pub mod text;
pub mod text_laws;
pub mod timing;
pub mod timing_laws;
pub mod tray;
pub mod vblank;
pub mod warp;
pub mod watch;

verus! {

/// The probe by which an injected library shows that it runs: "IFRM".
pub fn iframe_ping() -> (word: u32)
    ensures
        word == 0x4946_524D,
{
    0x4946_524D
}

/// Version of the interface between the panel and the injected library.
pub fn iframe_abi_version() -> (version: u32)
    ensures
        version == 1,
{
    1
}

} // verus!
