//! Exported data.
use crate::db::conversations::ConversationRow;
use crate::db::memories::{EpisodeRow, PersonRow, PreferenceRow};
use crate::db::reminders::ReminderRow;
use vstd::prelude::*;

verus! {

#[derive(Debug, Clone, PartialEq)]
pub struct ExportPayload {
    pub conversations: Vec<ConversationRow>,
    pub people: Vec<PersonRow>,
    pub preferences: Vec<PreferenceRow>,
    pub episodes: Vec<EpisodeRow>,
    pub reminders: Vec<ReminderRow>,
}

} // verus!
