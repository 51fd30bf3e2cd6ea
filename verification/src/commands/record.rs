//! Recording a transcript.
use crate::text::{chars_of, string_of, trim, trimmed_chars};
use vstd::prelude::*;

verus! {

#[derive(Debug, Clone, PartialEq, Eq)]
pub struct RecordResult {
    pub conversation_id: i64,
    pub transcript: String,
}

/// The transcript to store: trimmed, and refused when nothing is left.
pub fn prepare_transcript(transcript: &str) -> (res: Result<String, String>)
    ensures
        match res {
            Ok(t) => trim(transcript@).len() > 0 && t@ == trim(transcript@),
            Err(e) => trim(transcript@).len() == 0 && e@ == "转写结果为空，请重试"@,
        },
{
    let t = trimmed_chars(transcript);
    if t.len() == 0 {
        let e = chars_of("转写结果为空，请重试");
        return Err(string_of(&e));
    }
    Ok(string_of(&t))
}

} // verus!
