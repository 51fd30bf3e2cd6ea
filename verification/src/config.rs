//! The user's settings.
use crate::asr::model::{join_path, path_joined};
use crate::text::{chars_of, str_eq, string_of};
use vstd::prelude::*;

verus! {

/// The settings, as stored in `config.json`. `app_commands` maps spoken
/// application names to commands, in the order in which they are applied.
#[derive(Debug, Clone, PartialEq)]
pub struct Config {
    pub api_key: String,
    pub input_device: Option<usize>,
    pub voice_assistant_enabled: bool,
    pub wake_word: String,
    pub listen_window_secs: u32,
    pub wake_model: String,
    pub asr_model: String,
    pub reply_mode: String,
    pub music_play_source: String,
    pub app_commands: Vec<(String, String)>,
}

/// Replies are both shown and spoken unless configured otherwise.
pub fn default_reply_mode() -> (res: String)
    ensures
        res@ == "both"@,
{
    let v = chars_of("both");
    string_of(&v)
}

/// The wake word is checked with the small "base" model by default.
pub fn default_wake_model() -> (res: String)
    ensures
        res@ == "base"@,
{
    let v = chars_of("base");
    string_of(&v)
}

/// The voice assistant is on by default.
pub fn default_voice_assistant_enabled() -> (res: bool)
    ensures
        res,
{
    true
}

pub fn default_wake_word() -> (res: String)
    ensures
        res@ == "小贝小贝"@,
{
    let v = chars_of("小贝小贝");
    string_of(&v)
}

pub fn default_listen_window() -> (res: u32)
    ensures
        res == 30,
{
    30
}

impl Config {
    /// The settings of a fresh installation.
    pub open spec fn is_default(&self) -> bool {
        &&& self.api_key@.len() == 0
        &&& self.input_device is None
        &&& self.voice_assistant_enabled
        &&& self.wake_word@ == "小贝小贝"@
        &&& self.listen_window_secs == 30
        &&& self.wake_model@ == "base"@
        &&& self.asr_model@.len() == 0
        &&& self.reply_mode@ == "both"@
        &&& self.music_play_source@.len() == 0
        &&& self.app_commands@.len() == 0
    }
}

impl Default for Config {
    fn default() -> (res: Config)
        ensures
            res.is_default(),
    {
        Config {
            api_key: String::new(),
            input_device: None,
            voice_assistant_enabled: default_voice_assistant_enabled(),
            wake_word: default_wake_word(),
            listen_window_secs: default_listen_window(),
            wake_model: default_wake_model(),
            asr_model: String::new(),
            reply_mode: default_reply_mode(),
            music_play_source: String::new(),
            app_commands: Vec::new(),
        }
    }
}

/// `config.json` in the data directory.
pub fn config_path(data_dir: &str) -> (res: String)
    ensures
        res@ == path_joined(data_dir@, "config.json"@),
{
    join_path(data_dir, "config.json")
}

/// Whether a separate wake-word model is configured ("base" or "tiny").
pub fn cfg_uses_wake_model(cfg: &Config) -> (res: bool)
    ensures
        res == (cfg.wake_model@ == "base"@ || cfg.wake_model@ == "tiny"@),
{
    str_eq(cfg.wake_model.as_str(), "base") || str_eq(cfg.wake_model.as_str(), "tiny")
}

/// The API key to use: the environment's when set and non-empty, else the
/// configured one when non-empty.
pub fn load_api_key(env_key: Option<String>, cfg: &Config) -> (res: Option<String>)
    ensures
        res == (match env_key {
            Some(k) if k@.len() > 0 => Some(k),
            _ => if cfg.api_key@.len() > 0 {
                Some(cfg.api_key)
            } else {
                None
            },
        }),
{
    if let Some(k) = env_key {
        let kv = chars_of(k.as_str());
        if kv.len() > 0 {
            return Some(k);
        }
    }
    let cv = chars_of(cfg.api_key.as_str());
    if cv.len() == 0 {
        None
    } else {
        Some(cfg.api_key.clone())
    }
}

/// The listening window in milliseconds, at least one second.
pub fn listen_window_ms(cfg: &Config) -> (res: u64)
    ensures
        res == (if cfg.listen_window_secs < 1 {
            1
        } else {
            cfg.listen_window_secs
        }) * 1000,
{
    let secs: u64 = if cfg.listen_window_secs < 1 {
        1
    } else {
        cfg.listen_window_secs as u64
    };
    secs * 1000
}

/// The music source to open: the configured one, else the personal FM of
/// the music player.
pub fn music_source(cfg: &Config) -> (res: String)
    ensures
        res@ == (if cfg.music_play_source@.len() == 0 {
            "orpheus://radio"@
        } else {
            cfg.music_play_source@
        }),
{
    let v = chars_of(cfg.music_play_source.as_str());
    if v.len() == 0 {
        let r = chars_of("orpheus://radio");
        string_of(&r)
    } else {
        cfg.music_play_source.clone()
    }
}

} // verus!
