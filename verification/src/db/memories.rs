//! Stored people, preferences and episodes.
use crate::memory::types::{MemoryExtraction, PersonExtract, PreferenceExtract};
use crate::text::{chars_of, str_eq, string_of, trim, trim_vec};
use vstd::prelude::*;

verus! {

#[derive(Debug, Clone, PartialEq)]
pub struct PersonRow {
    pub id: i64,
    pub name: String,
    pub relation: String,
    pub note: String,
    pub conversation_id: i64,
}

#[derive(Debug, Clone, PartialEq)]
pub struct PreferenceRow {
    pub id: i64,
    pub topic: String,
    pub value: String,
    pub conversation_id: i64,
}

#[derive(Debug, Clone, PartialEq)]
pub struct EpisodeRow {
    pub id: i64,
    pub summary: String,
    pub place: String,
    pub conversation_id: i64,
}

/// The tables whose rows may be deleted one by one.
pub open spec fn allowed_table(table: Seq<char>) -> bool {
    table == "people"@ || table == "preferences"@ || table == "episodes"@
}

pub fn is_allowed_table(table: &str) -> (res: bool)
    ensures
        res == allowed_table(table@),
{
    str_eq(table, "people") || str_eq(table, "preferences") || str_eq(table, "episodes")
}

/// The rows that an extraction stores, trimmed: people with a name,
/// preferences with a topic, and the episode when it has a summary (its
/// place, or an empty one).
#[derive(Debug, Clone, PartialEq)]
pub struct ExtractionRows {
    pub people: Vec<(String, String, String)>,
    pub preferences: Vec<(String, String)>,
    pub episode: Option<(String, String)>,
}

fn trimmed_string(s: &String) -> (res: String)
    ensures
        res@ == trim(s@),
{
    let v = chars_of(s.as_str());
    let t = trim_vec(&v);
    string_of(&t)
}

/// The people rows of an extraction: those with a name, trimmed.
pub open spec fn people_rows(p: Seq<PersonExtract>) -> Seq<(Seq<char>, Seq<char>, Seq<char>)>
    decreases p.len(),
{
    if p.len() == 0 {
        Seq::empty()
    } else {
        let x = p.last();
        let rest = people_rows(p.drop_last());
        if trim(x.name@).len() > 0 {
            rest.push((trim(x.name@), trim(x.relation@), trim(x.note@)))
        } else {
            rest
        }
    }
}

/// The preference rows of an extraction: those with a topic, trimmed.
pub open spec fn preference_rows(p: Seq<PreferenceExtract>) -> Seq<(Seq<char>, Seq<char>)>
    decreases p.len(),
{
    if p.len() == 0 {
        Seq::empty()
    } else {
        let x = p.last();
        let rest = preference_rows(p.drop_last());
        if trim(x.topic@).len() > 0 {
            rest.push((trim(x.topic@), trim(x.value@)))
        } else {
            rest
        }
    }
}

pub fn plan_extraction_rows(ext: &MemoryExtraction) -> (res: ExtractionRows)
    ensures
        res.people@.map_values(|p: (String, String, String)| (p.0@, p.1@, p.2@)) == people_rows(
            ext.people@,
        ),
        res.preferences@.map_values(|p: (String, String)| (p.0@, p.1@)) == preference_rows(
            ext.preferences@,
        ),
        match ext.episode {
            Some(e) => if trim(e.summary@).len() > 0 {
                res.episode matches Some((s, pl)) && s@ == trim(e.summary@) && pl@ == match e.place {
                    Some(x) => trim(x@),
                    None => Seq::empty(),
                }
            } else {
                res.episode is None
            },
            None => res.episode is None,
        },
{
    let mut people: Vec<(String, String, String)> = Vec::new();
    let mut i: usize = 0;
    while i < ext.people.len()
        invariant
            i <= ext.people.len(),
            people@.map_values(|p: (String, String, String)| (p.0@, p.1@, p.2@)) == people_rows(
                ext.people@.subrange(0, i as int),
            ),
        decreases ext.people.len() - i,
    {
        let ghost before = people@;
        assert(ext.people@.subrange(0, i + 1).drop_last() =~= ext.people@.subrange(0, i as int));
        let name = trimmed_string(&ext.people[i].name);
        let nv = chars_of(name.as_str());
        if nv.len() > 0 {
            let relation = trimmed_string(&ext.people[i].relation);
            let note = trimmed_string(&ext.people[i].note);
            people.push((name, relation, note));
            assert(people@.map_values(|p: (String, String, String)| (p.0@, p.1@, p.2@))
                =~= before.map_values(|p: (String, String, String)| (p.0@, p.1@, p.2@)).push(
                (trim(ext.people@[i as int].name@), trim(ext.people@[i as int].relation@), trim(ext.people@[i as int].note@)),
            ));
        }
        i = i + 1;
    }
    assert(ext.people@.subrange(0, ext.people.len() as int) =~= ext.people@);
    let mut prefs: Vec<(String, String)> = Vec::new();
    let mut j: usize = 0;
    while j < ext.preferences.len()
        invariant
            j <= ext.preferences.len(),
            prefs@.map_values(|p: (String, String)| (p.0@, p.1@)) == preference_rows(
                ext.preferences@.subrange(0, j as int),
            ),
        decreases ext.preferences.len() - j,
    {
        let ghost before = prefs@;
        assert(ext.preferences@.subrange(0, j + 1).drop_last() =~= ext.preferences@.subrange(
            0,
            j as int,
        ));
        let topic = trimmed_string(&ext.preferences[j].topic);
        let tv = chars_of(topic.as_str());
        if tv.len() > 0 {
            let value = trimmed_string(&ext.preferences[j].value);
            prefs.push((topic, value));
            assert(prefs@.map_values(|p: (String, String)| (p.0@, p.1@)) =~= before.map_values(
                |p: (String, String)| (p.0@, p.1@),
            ).push((trim(ext.preferences@[j as int].topic@), trim(ext.preferences@[j as int].value@))));
        }
        j = j + 1;
    }
    assert(ext.preferences@.subrange(0, ext.preferences.len() as int) =~= ext.preferences@);
    let episode = match &ext.episode {
        Some(e) => {
            let summary = trimmed_string(&e.summary);
            let sv = chars_of(summary.as_str());
            if sv.len() > 0 {
                let place = match &e.place {
                    Some(x) => trimmed_string(x),
                    None => String::new(),
                };
                Some((summary, place))
            } else {
                None
            }
        },
        None => None,
    };
    ExtractionRows { people, preferences: prefs, episode }
}

} // verus!
