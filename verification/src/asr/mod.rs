//! Speech-recognition model files.
pub mod model;
