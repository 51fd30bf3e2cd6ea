//! Stored reminders: how their due times are read and written.
use crate::memory::types::ReminderExtract;
use crate::text::{chars_of, str_eq, string_of, trim, trim_vec};
use crate::time::{format_datetime, formatted, parse_datetime, parsed_datetime, DateTime};
use crate::timeparse::{amount_fits, due_of, parse_due};
use vstd::prelude::*;

verus! {

#[derive(Debug, Clone, PartialEq)]
pub struct ReminderRow {
    pub id: i64,
    pub content: String,
    pub due_at: Option<String>,
    pub status: String,
    pub needs_time: bool,
    pub conversation_id: i64,
}

/// The statuses a reminder may have.
pub open spec fn valid_status(status: Seq<char>) -> bool {
    status == "pending"@ || status == "done"@ || status == "expired"@
}

pub fn is_valid_status(status: &str) -> (res: bool)
    ensures
        res == valid_status(status@),
{
    str_eq(status, "pending") || str_eq(status, "done") || str_eq(status, "expired")
}

/// How due times are stored.
pub open spec fn stored_format() -> Seq<char> {
    "%Y-%m-%d %H:%M:%S"@
}

/// The stored due time and whether a time is still needed, for a reminder
/// whose due text is `due`: a spoken time that is understood, or a date-time
/// written "Y-m-d H:M:S" or "Y-m-dTH:M:S", is stored in the stored format;
/// any other text is kept as it is and still needs a time; no text at all
/// needs a time.
pub open spec fn resolved_due(due: Option<Seq<char>>, now: DateTime) -> (Option<Seq<char>>, bool) {
    match due {
        Some(d) => match due_of(d, now) {
            Some(dt) => (Some(formatted(dt, stored_format())), false),
            None => match parsed_datetime(d, "%Y-%m-%d %H:%M:%S"@) {
                Some(dt) => (Some(formatted(dt, stored_format())), false),
                None => match parsed_datetime(d, "%Y-%m-%dT%H:%M:%S"@) {
                    Some(dt) => (Some(formatted(dt, stored_format())), false),
                    None => (Some(d), true),
                },
            },
        },
        None => (None, true),
    }
}

pub open spec fn opt_view(o: Option<String>) -> Option<Seq<char>> {
    match o {
        Some(s) => Some(s@),
        None => None,
    }
}

pub fn resolve_due(due: &Option<String>, now: DateTime) -> (res: (Option<String>, bool))
    requires
        now.wf(),
        due matches Some(d) ==> amount_fits(d@),
    ensures
        (opt_view(res.0), res.1) == resolved_due(opt_view(*due), now),
{
    match due {
        Some(d) => {
            match parse_due(d.as_str(), now) {
                Some(dt) => (Some(format_datetime(dt, "%Y-%m-%d %H:%M:%S")), false),
                None => {
                    match parse_datetime(d.as_str(), "%Y-%m-%d %H:%M:%S") {
                        Some(dt) => (Some(format_datetime(dt, "%Y-%m-%d %H:%M:%S")), false),
                        None => match parse_datetime(d.as_str(), "%Y-%m-%dT%H:%M:%S") {
                            Some(dt) => (Some(format_datetime(dt, "%Y-%m-%d %H:%M:%S")), false),
                            None => (Some(d.clone()), true),
                        },
                    }
                },
            }
        },
        None => (None, true),
    }
}

/// A reminder row to store: its trimmed content, its due time, and whether
/// it still needs one.
#[derive(Debug, Clone, PartialEq)]
pub struct NewReminder {
    pub content: String,
    pub due_at: Option<String>,
    pub needs_time: bool,
}

/// The rows stored for `reminders`, in order, leaving out those whose
/// content is blank.
pub open spec fn reminder_rows(r: Seq<ReminderExtract>, now: DateTime) -> Seq<
    (Seq<char>, Option<Seq<char>>, bool),
>
    decreases r.len(),
{
    if r.len() == 0 {
        Seq::empty()
    } else {
        let x = r.last();
        let rest = reminder_rows(r.drop_last(), now);
        if trim(x.content@).len() > 0 {
            let (d, n) = resolved_due(opt_view(x.due), now);
            rest.push((trim(x.content@), d, n))
        } else {
            rest
        }
    }
}

pub fn plan_reminder_rows(reminders: &Vec<ReminderExtract>, now: DateTime) -> (res: Vec<NewReminder>)
    requires
        now.wf(),
        forall|i: int|
            0 <= i < reminders@.len() && trim((#[trigger] reminders@[i]).content@).len() > 0 ==> (
            reminders@[i].due matches Some(d) ==> amount_fits(d@)),
    ensures
        res@.map_values(|r: NewReminder| (r.content@, opt_view(r.due_at), r.needs_time))
            == reminder_rows(reminders@, now),
{
    let mut out: Vec<NewReminder> = Vec::new();
    let mut i: usize = 0;
    while i < reminders.len()
        invariant
            i <= reminders.len(),
            now.wf(),
            forall|k: int|
                0 <= k < reminders@.len() && trim((#[trigger] reminders@[k]).content@).len() > 0
                    ==> (reminders@[k].due matches Some(d) ==> amount_fits(d@)),
            out@.map_values(|r: NewReminder| (r.content@, opt_view(r.due_at), r.needs_time))
                == reminder_rows(reminders@.subrange(0, i as int), now),
        decreases reminders.len() - i,
    {
        let ghost before = out@;
        assert(reminders@.subrange(0, i + 1).drop_last() =~= reminders@.subrange(0, i as int));
        let cv = chars_of(reminders[i].content.as_str());
        let content = trim_vec(&cv);
        if content.len() > 0 {
            assert(reminders@[i as int].due matches Some(d) ==> amount_fits(d@));
            let (due_at, needs_time) = resolve_due(&reminders[i].due, now);
            let row = NewReminder { content: string_of(&content), due_at, needs_time };
            out.push(row);
            assert(out@.map_values(|r: NewReminder| (r.content@, opt_view(r.due_at), r.needs_time))
                =~= before.map_values(
                |r: NewReminder| (r.content@, opt_view(r.due_at), r.needs_time),
            ).push((row.content@, opt_view(row.due_at), row.needs_time)));
        }
        i = i + 1;
    }
    assert(reminders@.subrange(0, reminders.len() as int) =~= reminders@);
    out
}

/// The stored form of a due time that the user set: a spoken time that is
/// understood, else a date-time written "Y-m-dTH:M", "Y-m-d H:M:S" or
/// "Y-m-d H:M"; `None` when it is none of these.
pub open spec fn normalized_due(due_at: Seq<char>, now: DateTime) -> Option<Seq<char>> {
    let parsed = match due_of(due_at, now) {
        Some(dt) => Some(dt),
        None => match parsed_datetime(due_at, "%Y-%m-%dT%H:%M"@) {
            Some(dt) => Some(dt),
            None => match parsed_datetime(due_at, "%Y-%m-%d %H:%M:%S"@) {
                Some(dt) => Some(dt),
                None => parsed_datetime(due_at, "%Y-%m-%d %H:%M"@),
            },
        },
    };
    match parsed {
        Some(dt) => Some(formatted(dt, stored_format())),
        None => None,
    }
}

pub fn normalize_due(due_at: &str, now: DateTime) -> (res: Option<String>)
    requires
        now.wf(),
        amount_fits(due_at@),
    ensures
        opt_view(res) == normalized_due(due_at@, now),
{
    let parsed = match parse_due(due_at, now) {
        Some(dt) => Some(dt),
        None => match parse_datetime(due_at, "%Y-%m-%dT%H:%M") {
            Some(dt) => Some(dt),
            None => match parse_datetime(due_at, "%Y-%m-%d %H:%M:%S") {
                Some(dt) => Some(dt),
                None => parse_datetime(due_at, "%Y-%m-%d %H:%M"),
            },
        },
    };
    match parsed {
        Some(dt) => Some(format_datetime(dt, "%Y-%m-%d %H:%M:%S")),
        None => None,
    }
}

} // verus!
