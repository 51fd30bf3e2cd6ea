//! Input devices and audio errors.
pub mod recorder;
pub mod wav;
