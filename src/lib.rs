//! Live-reload and input-synchronisation runtime for a full-screen shader
//! player: MIDI control-change decoding, controller-to-uniform mapping,
//! uniform resolution, frame composition and the reload state machine.

pub mod error;
pub mod keyed;
pub mod midi;
pub mod config;
pub mod mapping;
pub mod shaders;
pub mod controller;
pub mod frame;
pub mod runtime;
pub mod options;
