//! What a question is answered from.
use crate::db::memories::{PersonRow, PreferenceRow};
use crate::db::search::SearchHit;
use vstd::prelude::*;

verus! {

#[derive(Debug, Default)]
pub struct QueryContext {
    pub hits: Vec<SearchHit>,
    pub people: Vec<PersonRow>,
    pub prefs: Vec<PreferenceRow>,
}

} // verus!
