pub mod mixer;
pub mod routing;
pub mod stream;
pub mod time;
pub mod track;

pub use time::TimeSignature;
pub use track::{Track, TrackId, TrackState};
