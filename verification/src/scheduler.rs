//! Which reminders to announce, and what is said when they go off.
use crate::db::reminders::ReminderRow;
use crate::memory::extract::{clean_reminder_content, cleaned};
use crate::text::{append_str, chars_of, str_eq, string_of};
use crate::time::{
    add_seconds, format_datetime, formatted, parse_datetime, parsed_datetime, plus_seconds, succ,
    DateTime,
};
use vstd::prelude::*;

verus! {

/// `a` is not later than `b`: dates, then times, then fractions of a
/// second, compared in turn (the order of `chrono::NaiveDateTime`).
pub open spec fn dt_le(a: DateTime, b: DateTime) -> bool {
    let ka = (
        a.date.year as int,
        a.date.month as int,
        a.date.day as int,
        a.hour as int,
        a.minute as int,
        a.second as int,
        a.nano as int,
    );
    let kb = (
        b.date.year as int,
        b.date.month as int,
        b.date.day as int,
        b.hour as int,
        b.minute as int,
        b.second as int,
        b.nano as int,
    );
    if ka.0 != kb.0 {
        ka.0 < kb.0
    } else if ka.1 != kb.1 {
        ka.1 < kb.1
    } else if ka.2 != kb.2 {
        ka.2 < kb.2
    } else if ka.3 != kb.3 {
        ka.3 < kb.3
    } else if ka.4 != kb.4 {
        ka.4 < kb.4
    } else if ka.5 != kb.5 {
        ka.5 < kb.5
    } else {
        ka.6 <= kb.6
    }
}

pub fn datetime_le(a: DateTime, b: DateTime) -> (res: bool)
    ensures
        res == dt_le(a, b),
{
    if a.date.year != b.date.year {
        a.date.year < b.date.year
    } else if a.date.month != b.date.month {
        a.date.month < b.date.month
    } else if a.date.day != b.date.day {
        a.date.day < b.date.day
    } else if a.hour != b.hour {
        a.hour < b.hour
    } else if a.minute != b.minute {
        a.minute < b.minute
    } else if a.second != b.second {
        a.second < b.second
    } else {
        a.nano <= b.nano
    }
}

/// A moment as one number that grows with time: the year, then the month,
/// day, hour, minute, second and nanosecond as digits of a mixed radix
/// wide enough for each field of a valid date-time.
pub open spec fn instant_key(dt: DateTime) -> int {
    let months = dt.date.year as int * 13 + dt.date.month as int;
    let days = months * 32 + dt.date.day as int;
    let hours = days * 24 + dt.hour as int;
    let minutes = hours * 60 + dt.minute as int;
    let seconds = minutes * 60 + dt.second as int;
    seconds * 2_000_000_000 + dt.nano as int
}

proof fn lemma_radix(x1: int, x2: int, y1: int, y2: int, b: int)
    requires
        0 <= x2 < b,
        0 <= y2 < b,
    ensures
        (x1 * b + x2 < y1 * b + y2) == (x1 < y1 || (x1 == y1 && x2 < y2)),
        (x1 * b + x2 == y1 * b + y2) == (x1 == y1 && x2 == y2),
{
    if x1 < y1 {
        assert(x1 * b + b <= y1 * b) by (nonlinear_arith)
            requires
                x1 < y1,
                0 < b,
        ;
    } else if x1 > y1 {
        assert(y1 * b + b <= x1 * b) by (nonlinear_arith)
            requires
                y1 < x1,
                0 < b,
        ;
    }
}

/// For valid date-times, `dt_le(a, b)` says exactly that `a` is not later
/// than `b`: its moment number is not greater.
pub proof fn law_dt_le_is_time_order(a: DateTime, b: DateTime)
    requires
        a.wf(),
        b.wf(),
    ensures
        dt_le(a, b) == (instant_key(a) <= instant_key(b)),
{
    let (ya, yb) = (a.date.year as int, b.date.year as int);
    let ma = ya * 13 + a.date.month as int;
    let mb = yb * 13 + b.date.month as int;
    lemma_radix(ya, a.date.month as int, yb, b.date.month as int, 13);
    let da = ma * 32 + a.date.day as int;
    let db = mb * 32 + b.date.day as int;
    lemma_radix(ma, a.date.day as int, mb, b.date.day as int, 32);
    let ha = da * 24 + a.hour as int;
    let hb = db * 24 + b.hour as int;
    lemma_radix(da, a.hour as int, db, b.hour as int, 24);
    let mia = ha * 60 + a.minute as int;
    let mib = hb * 60 + b.minute as int;
    lemma_radix(ha, a.minute as int, hb, b.minute as int, 60);
    let sa = mia * 60 + a.second as int;
    let sb = mib * 60 + b.second as int;
    lemma_radix(mia, a.second as int, mib, b.second as int, 60);
    lemma_radix(sa, a.nano as int, sb, b.nano as int, 2_000_000_000);
}

/// How long before its time a reminder is announced, in seconds.
pub const NOTIFY_AHEAD_SECS: i64 = 900;

/// Whether the reminder `r` is announced with the cut-off `cutoff`: it is
/// pending and has a stored due time not after the cut-off.
pub open spec fn to_notify(r: ReminderRow, cutoff: DateTime) -> bool {
    &&& r.status@ == "pending"@
    &&& r.due_at matches Some(d)
    &&& parsed_datetime(d@, "%Y-%m-%d %H:%M:%S"@) matches Some(dt)
    &&& dt_le(dt, cutoff)
}

pub open spec fn rows_to_notify(rows: Seq<ReminderRow>, cutoff: DateTime) -> Seq<ReminderRow>
    decreases rows.len(),
{
    if rows.len() == 0 {
        Seq::empty()
    } else {
        let rest = rows_to_notify(rows.drop_last(), cutoff);
        if to_notify(rows.last(), cutoff) {
            rest.push(rows.last())
        } else {
            rest
        }
    }
}

/// Every announced reminder is one of the given rows and meets the rule.
pub proof fn law_notified_rows_qualify(rows: Seq<ReminderRow>, cutoff: DateTime)
    ensures
        forall|i: int|
            0 <= i < rows_to_notify(rows, cutoff).len() ==> to_notify(
                #[trigger] rows_to_notify(rows, cutoff)[i],
                cutoff,
            ) && rows.contains(rows_to_notify(rows, cutoff)[i]),
    decreases rows.len(),
{
    if rows.len() > 0 {
        law_notified_rows_qualify(rows.drop_last(), cutoff);
        let rest = rows_to_notify(rows.drop_last(), cutoff);
        assert forall|i: int|
            0 <= i < rows_to_notify(rows, cutoff).len() implies to_notify(
            #[trigger] rows_to_notify(rows, cutoff)[i],
            cutoff,
        ) && rows.contains(rows_to_notify(rows, cutoff)[i]) by {
            if i < rest.len() {
                assert(rows_to_notify(rows, cutoff)[i] == rest[i]);
                assert(rows.drop_last().contains(rest[i]));
                let k = choose|k: int| 0 <= k < rows.drop_last().len() && rows.drop_last()[k] == rest[i];
                assert(rows[k] == rest[i]);
            } else {
                assert(rows_to_notify(rows, cutoff)[i] == rows.last());
                assert(rows[rows.len() - 1] == rows.last());
            }
        }
    }
}

/// No reminder is announced whose stored due time is later than the
/// cut-off (fifteen minutes after now): a reminder due in a later month,
/// day, hour or minute than the cut-off is never among those announced.
pub proof fn law_announced_not_after_cutoff(rows: Seq<ReminderRow>, cutoff: DateTime, i: int)
    requires
        cutoff.wf(),
        0 <= i < rows_to_notify(rows, cutoff).len(),
    ensures
        ({
            let r = rows_to_notify(rows, cutoff)[i];
            &&& r.status@ == "pending"@
            &&& r.due_at matches Some(d)
            &&& parsed_datetime(d@, "%Y-%m-%d %H:%M:%S"@) matches Some(dt)
            &&& dt.wf() ==> instant_key(dt) <= instant_key(cutoff)
        }),
{
    law_notified_rows_qualify(rows, cutoff);
    let r = rows_to_notify(rows, cutoff)[i];
    assert(to_notify(r, cutoff));
    let dt = parsed_datetime(r.due_at->0@, "%Y-%m-%d %H:%M:%S"@)->0;
    if dt.wf() {
        law_dt_le_is_time_order(dt, cutoff);
    }
}

impl ReminderRow {
    /// A copy of the row.
    pub fn duplicate(&self) -> (res: ReminderRow)
        ensures
            res == *self,
    {
        ReminderRow {
            id: self.id,
            content: self.content.clone(),
            due_at: match &self.due_at {
                Some(d) => Some(d.clone()),
                None => None,
            },
            status: self.status.clone(),
            needs_time: self.needs_time,
            conversation_id: self.conversation_id,
        }
    }
}

/// The reminders to announce at `now`: pending ones due within the next
/// fifteen minutes or earlier, in their order.
pub fn due_reminders_for_notification(reminders: &[ReminderRow], now: DateTime) -> (res: Vec<
    ReminderRow,
>)
    requires
        now.wf(),
        plus_seconds(now, NOTIFY_AHEAD_SECS as int) is Some,
    ensures
        res@ == rows_to_notify(reminders@, plus_seconds(now, NOTIFY_AHEAD_SECS as int)->0),
{
    let cutoff = match add_seconds(now, NOTIFY_AHEAD_SECS) {
        Some(c) => c,
        None => {
            return Vec::new();
        },
    };
    let mut out: Vec<ReminderRow> = Vec::new();
    let mut i: usize = 0;
    while i < reminders.len()
        invariant
            i <= reminders.len(),
            out@ == rows_to_notify(reminders@.subrange(0, i as int), cutoff),
        decreases reminders.len() - i,
    {
        assert(reminders@.subrange(0, i + 1).drop_last() =~= reminders@.subrange(0, i as int));
        let r = &reminders[i];
        if str_eq(r.status.as_str(), "pending") {
            if let Some(d) = &r.due_at {
                if let Some(dt) = parse_datetime(d.as_str(), "%Y-%m-%d %H:%M:%S") {
                    if datetime_le(dt, cutoff) {
                        out.push(r.duplicate());
                    }
                }
            }
        }
        i = i + 1;
    }
    assert(reminders@.subrange(0, reminders.len() as int) =~= reminders@);
    out
}

/// The reminders to announce at `now`, or `None` when `now` is so late
/// that the cut-off fifteen minutes ahead cannot be represented.
pub fn reminders_to_notify(reminders: &[ReminderRow], now: DateTime) -> (res: Option<
    Vec<ReminderRow>,
>)
    requires
        now.wf(),
    ensures
        match res {
            Some(v) => plus_seconds(now, NOTIFY_AHEAD_SECS as int) is Some && v@ == rows_to_notify(
                reminders@,
                plus_seconds(now, NOTIFY_AHEAD_SECS as int)->0,
            ),
            None => plus_seconds(now, NOTIFY_AHEAD_SECS as int) is None,
        },
{
    match add_seconds(now, NOTIFY_AHEAD_SECS) {
        Some(_) => Some(due_reminders_for_notification(reminders, now)),
        None => None,
    }
}

/// A stored due time as it is announced: the hour and minute today,
/// "明天" and the hour and minute tomorrow, the month, day, hour and minute
/// otherwise; the text itself when it is not a stored date-time.
pub open spec fn friendly_due_spec(due_at: Seq<char>, now: DateTime) -> Seq<char> {
    match parsed_datetime(due_at, "%Y-%m-%d %H:%M:%S"@) {
        Some(dt) => if dt.date == now.date {
            formatted(dt, "%H:%M"@)
        } else if succ(now.date) == Some(dt.date) {
            "明天"@ + formatted(dt, "%H:%M"@)
        } else {
            formatted(dt, "%m月%d日 %H:%M"@)
        },
        None => due_at,
    }
}

pub fn friendly_due(due_at: &str, now: DateTime) -> (res: String)
    requires
        now.wf(),
    ensures
        res@ == friendly_due_spec(due_at@, now),
{
    match parse_datetime(due_at, "%Y-%m-%d %H:%M:%S") {
        Some(dt) => {
            if dt.date == now.date {
                format_datetime(dt, "%H:%M")
            } else if crate::time::next_day(now.date) == Some(dt.date) {
                let mut v = chars_of("明天");
                let hm = format_datetime(dt, "%H:%M");
                append_str(&mut v, hm.as_str());
                string_of(&v)
            } else {
                format_datetime(dt, "%m月%d日 %H:%M")
            }
        },
        None => {
            let v = chars_of(due_at);
            string_of(&v)
        },
    }
}

/// The announcement of a reminder found overdue: "补发提醒：", its core, "，原定"
/// and its due time.
pub fn overdue_message(r: &ReminderRow, now: DateTime) -> (res: String)
    requires
        now.wf(),
    ensures
        res@ == "补发提醒："@ + cleaned(r.content@) + "，原定"@ + match r.due_at {
            Some(d) => friendly_due_spec(d@, now),
            None => Seq::empty(),
        },
{
    let content = clean_reminder_content(r.content.as_str());
    let mut v = chars_of("补发提醒：");
    append_str(&mut v, content.as_str());
    append_str(&mut v, "，原定");
    match &r.due_at {
        Some(d) => {
            let f = friendly_due(d.as_str(), now);
            append_str(&mut v, f.as_str());
        },
        None => {},
    }
    string_of(&v)
}

/// The announcement of a reminder whose time has come.
pub fn due_message(content: &str) -> (res: String)
    ensures
        res@ == "到时间了，该"@ + cleaned(content@) + "了"@,
{
    let c = clean_reminder_content(content);
    let mut v = chars_of("到时间了，该");
    append_str(&mut v, c.as_str());
    append_str(&mut v, "了");
    string_of(&v)
}

} // verus!
