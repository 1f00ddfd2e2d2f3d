//! Turns the spectrum of a playing track into a frame of coloured glyphs.
//!
//! Pitch and loudness are carried as fixed-point integers: a MIDI number in
//! ten-thousandths of a semitone, an amplitude in millionths.

pub mod pitch;
pub mod note;
pub mod tones;
pub mod sampler;
pub mod color;
pub mod raster;
pub mod settings;
pub mod synesthetizer;
