//! The voice assistant: wake word, dialog, commands and replies.
pub mod apps;
pub mod commands;
pub mod dialog;
pub mod feed;
pub mod launch;
pub mod listener;
pub mod log;
pub mod outcome;
pub mod reply;
pub mod vad;
pub mod wake;
