//! SmartBC, a voice assistant that remembers: the decisions behind wake
//! words, dialog, spoken times, reminders, memories and system commands,
//! each with its contract.
pub mod asr;
pub mod audio;
pub mod commands;
pub mod config;
pub mod db;
pub mod llm;
pub mod memory;
pub mod query;
pub mod scheduler;
pub mod telemetry;
pub mod text;
pub mod time;
pub mod timeparse;
pub mod voice;
