//! Searching stored transcripts.
use crate::text::{trim, trimmed_chars, string_of};
use vstd::prelude::*;

verus! {

#[derive(Debug, Clone, PartialEq)]
pub struct SearchHit {
    pub conversation_id: i64,
    pub transcript: String,
    pub snippet: String,
}

/// How a search is run.
#[derive(Debug, Clone, PartialEq, Eq)]
pub enum SearchMode {
    /// The query is too short to search for.
    NoSearch,
    /// Full-text search with the trigram index (three characters or more).
    FullText(String),
    /// A substring match, for shorter queries.
    Like(String),
}

/// The number of bytes of the UTF-8 encoding of `c` (`char::len_utf8`).
pub open spec fn utf8_width(c: char) -> nat {
    if (c as u32) < 0x80 {
        1
    } else if (c as u32) < 0x800 {
        2
    } else if (c as u32) < 0x10000 {
        3
    } else {
        4
    }
}

/// The number of bytes of the UTF-8 encoding of `s` (`str::len`).
pub open spec fn utf8_len(s: Seq<char>) -> nat
    decreases s.len(),
{
    if s.len() == 0 {
        0
    } else {
        utf8_len(s.drop_last()) + utf8_width(s.last())
    }
}

proof fn lemma_utf8_len_at_least(s: Seq<char>)
    ensures
        utf8_len(s) >= s.len(),
    decreases s.len(),
{
    if s.len() > 0 {
        lemma_utf8_len_at_least(s.drop_last());
    }
}

/// The mode for a query: none when the trimmed query is under two bytes of
/// UTF-8, full text when it has three characters or more, a substring
/// match otherwise; the trimmed query is what is searched for.
pub open spec fn search_mode_of(query: Seq<char>) -> (int, Seq<char>) {
    let t = trim(query);
    if utf8_len(t) < 2 {
        (0, t)
    } else if t.len() >= 3 {
        (1, t)
    } else {
        (2, t)
    }
}

pub fn search_mode(query: &str) -> (res: SearchMode)
    ensures
        match res {
            SearchMode::NoSearch => search_mode_of(query@).0 == 0,
            SearchMode::FullText(q) => search_mode_of(query@) == (1int, q@),
            SearchMode::Like(q) => search_mode_of(query@) == (2int, q@),
        },
{
    let t = trimmed_chars(query);
    proof {
        lemma_utf8_len_at_least(t@);
    }
    let short = if t.len() == 0 {
        true
    } else if t.len() == 1 {
        assert(t@.drop_last().len() == 0);
        assert(utf8_len(t@) == utf8_width(t@[0])) by {
            reveal_with_fuel(utf8_len, 2);
        }
        (t[0] as u32) < 0x80
    } else {
        false
    };
    if short {
        SearchMode::NoSearch
    } else if t.len() >= 3 {
        SearchMode::FullText(string_of(&t))
    } else {
        assert(t.len() == 2 ==> utf8_len(t@) >= 2);
        SearchMode::Like(string_of(&t))
    }
}

} // verus!
