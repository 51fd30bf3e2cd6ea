//! The voice assistant's switch and status.
use crate::config::Config;
use crate::text::{chars_of, string_of};
use vstd::prelude::*;

verus! {

#[derive(Debug, Clone, PartialEq, Eq)]
pub struct VoiceStatus {
    pub enabled: bool,
    pub state: String,
}

/// Whether the voice assistant is switched on in `cfg`.
pub fn voice_assistant_enabled(cfg: &Config) -> (res: bool)
    ensures
        res == cfg.voice_assistant_enabled,
{
    cfg.voice_assistant_enabled
}

/// The status shown for `cfg`: the switch, and the idle state.
pub fn voice_status(cfg: &Config) -> (res: VoiceStatus)
    ensures
        res.enabled == cfg.voice_assistant_enabled,
        res.state@ == "idle"@,
{
    let s = chars_of("idle");
    VoiceStatus { enabled: voice_assistant_enabled(cfg), state: string_of(&s) }
}

} // verus!
