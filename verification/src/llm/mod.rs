//! Prompts for the language model.
pub mod answer;
