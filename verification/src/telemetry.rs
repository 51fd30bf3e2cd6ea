//! Usage counters.
use crate::text::str_eq;
use vstd::prelude::*;

verus! {

#[derive(Debug, Clone, Default, PartialEq, Eq)]
pub struct UsageStats {
    pub recordings: i64,
    pub queries: i64,
    pub reminder_clicks: i64,
    pub last_7d_active_days: i64,
}

/// The events that are counted.
pub open spec fn allowed_event(event: Seq<char>) -> bool {
    event == "recording_done"@ || event == "query_asked"@ || event == "reminder_clicked"@
}

pub fn is_allowed_event(event: &str) -> (res: bool)
    ensures
        res == allowed_event(event@),
{
    str_eq(event, "recording_done") || str_eq(event, "query_asked") || str_eq(
        event,
        "reminder_clicked",
    )
}

} // verus!
