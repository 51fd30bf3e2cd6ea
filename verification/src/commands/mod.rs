//! What the settings window's commands compute.
pub mod record;
pub mod settings;
pub mod voice;
