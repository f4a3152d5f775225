//! The frame generator: it turns the picture with the mouse between two frames of the
//! game, and shows frames of its own in between.

pub mod capture;
pub mod config;
pub mod control;
pub mod demo;
pub mod engine;
pub mod input;
pub mod math;
pub mod presenter;
pub mod warp_laws;
