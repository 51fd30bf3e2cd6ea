//! Stored conversations.
use vstd::prelude::*;

verus! {

#[derive(Debug, Clone, PartialEq)]
pub struct ConversationRow {
    pub id: i64,
    pub created_at: String,
    pub transcript: String,
    pub summary: Option<String>,
    pub audio_path: Option<String>,
}

} // verus!
