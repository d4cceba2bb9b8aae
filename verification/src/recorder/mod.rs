pub mod file_writer;
pub mod live_waveform;
