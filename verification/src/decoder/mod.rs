pub mod control;
pub mod dsp;
pub mod output;
pub mod resample;

pub use control::DecoderCmd;
