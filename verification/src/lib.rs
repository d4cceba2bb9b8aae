//! Verified core of a small multitrack recorder and player: track routing,
//! transport state, undo history, sample layout helpers and the terminal
//! controller's decisions.

pub mod engine;
pub mod session;
pub mod decoder;
pub mod recorder;
pub mod waveform;
pub mod daw_controller;
pub mod bpm;
