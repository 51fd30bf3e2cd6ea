//! Memories extracted from transcripts.
pub mod extract;
pub mod types;
