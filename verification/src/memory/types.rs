//! What the memory extractor finds in a transcript.
use vstd::prelude::*;

verus! {

#[derive(Debug, Clone, Default, PartialEq)]
pub struct PersonExtract {
    pub name: String,
    pub relation: String,
    pub note: String,
}

#[derive(Debug, Clone, PartialEq)]
pub struct ReminderExtract {
    pub content: String,
    pub due: Option<String>,
}

#[derive(Debug, Clone, PartialEq)]
pub struct PreferenceExtract {
    pub topic: String,
    pub value: String,
}

#[derive(Debug, Clone, Default, PartialEq)]
pub struct EpisodeExtract {
    pub summary: String,
    pub people: Vec<String>,
    pub place: Option<String>,
}

#[derive(Debug, Clone, Default, PartialEq)]
pub struct MemoryExtraction {
    pub people: Vec<PersonExtract>,
    pub reminders: Vec<ReminderExtract>,
    pub preferences: Vec<PreferenceExtract>,
    pub episode: Option<EpisodeExtract>,
}

impl MemoryExtraction {
    /// Whether anything was found: a reminder, a person, a preference or an
    /// episode.
    pub open spec fn has_content_spec(&self) -> bool {
        self.reminders@.len() > 0 || self.people@.len() > 0 || self.preferences@.len() > 0
            || self.episode is Some
    }

    pub fn has_content(&self) -> (res: bool)
        ensures
            res == self.has_content_spec(),
    {
        self.reminders.len() > 0 || self.people.len() > 0 || self.preferences.len() > 0
            || self.episode.is_some()
    }

    /// Whether there is a person, a preference or an episode to store.
    pub fn has_memories(&self) -> (res: bool)
        ensures
            res == (self.people@.len() > 0 || self.preferences@.len() > 0 || self.episode is Some),
    {
        self.people.len() > 0 || self.preferences.len() > 0 || self.episode.is_some()
    }
}

} // verus!
