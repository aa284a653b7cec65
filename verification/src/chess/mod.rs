//! Chess extension logic: PGN reading, movetext analysis and time controls.
pub mod calendar;
pub mod error;
pub mod fields;
pub mod log;
pub mod moves;
pub mod reader;
pub mod scalar;
pub mod timecontrol;
pub mod types;
pub mod visitor;

pub use error::ErrorAccumulator;
