//! The lines of the voice assistant's log.
use crate::text::{append_str, chars_of, string_of};
use vstd::prelude::*;

verus! {

/// The file name of the log, in the data directory.
pub const LOG_FILE: &'static str = "voice-assistant.log";

/// A line of the log: the time stamp in brackets, then the message.
pub fn log_entry(stamp: &str, msg: &str) -> (res: String)
    ensures
        res@ == "["@ + stamp@ + "] "@ + msg@,
{
    let mut v = chars_of("[");
    append_str(&mut v, stamp);
    append_str(&mut v, "] ");
    append_str(&mut v, msg);
    string_of(&v)
}

/// The message logged for an error.
pub fn error_message(msg: &str) -> (res: String)
    ensures
        res@ == "ERROR: "@ + msg@,
{
    let mut v = chars_of("ERROR: ");
    append_str(&mut v, msg);
    string_of(&v)
}

} // verus!
