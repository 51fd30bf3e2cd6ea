//! Calendar dates and local date-times, as plain values, with the calendar
//! arithmetic that `chrono` performs on them.
use chrono::{Datelike, Timelike};
use vstd::prelude::*;

verus! {

/// The earliest year that `chrono::NaiveDate` represents.
pub const MIN_YEAR: i32 = -262143;

/// The latest year that `chrono::NaiveDate` represents.
pub const MAX_YEAR: i32 = 262142;

/// The largest number of whole seconds that a `chrono::TimeDelta` holds.
pub const MAX_DELTA_SECS: i64 = 9223372036854775;

/// A day of the proleptic Gregorian calendar.
#[derive(Debug, Clone, Copy, PartialEq, Eq, Structural)]
pub struct Date {
    pub year: i32,
    pub month: u32,
    pub day: u32,
}

/// A date with a time of day and no time zone.
#[derive(Debug, Clone, Copy, PartialEq, Eq, Structural)]
pub struct DateTime {
    pub date: Date,
    pub hour: u32,
    pub minute: u32,
    pub second: u32,
    pub nano: u32,
}

pub open spec fn is_leap(y: int) -> bool {
    y % 4 == 0 && (y % 100 != 0 || y % 400 == 0)
}

pub open spec fn days_in_month(y: int, m: int) -> int {
    if m == 2 {
        if is_leap(y) {
            29
        } else {
            28
        }
    } else if m == 4 || m == 6 || m == 9 || m == 11 {
        30
    } else {
        31
    }
}

pub open spec fn valid_ymd(y: int, m: int, d: int) -> bool {
    MIN_YEAR <= y <= MAX_YEAR && 1 <= m <= 12 && 1 <= d <= days_in_month(y, m)
}

/// The next day, when it is still within `chrono`'s range.
pub open spec fn succ(d: Date) -> Option<Date> {
    if (d.day as int) < days_in_month(d.year as int, d.month as int) {
        Some(Date { year: d.year, month: d.month, day: (d.day + 1) as u32 })
    } else if d.month < 12 {
        Some(Date { year: d.year, month: (d.month + 1) as u32, day: 1 })
    } else if d.year < MAX_YEAR {
        Some(Date { year: (d.year + 1) as i32, month: 1, day: 1 })
    } else {
        None
    }
}

/// The day of the week of a valid date, Monday being 0 and Sunday 6, as
/// `chrono` reckons it.
pub uninterp spec fn weekday_number(y: int, m: int, d: int) -> int;

impl Date {
    pub open spec fn wf(self) -> bool {
        valid_ymd(self.year as int, self.month as int, self.day as int)
    }

    pub open spec fn weekday(self) -> int {
        weekday_number(self.year as int, self.month as int, self.day as int)
    }
}

impl DateTime {
    pub open spec fn wf(self) -> bool {
        &&& self.date.wf()
        &&& self.hour < 24
        &&& self.minute < 60
        &&& self.second < 60
        &&& (self.nano < 1_000_000_000 || (self.second == 59 && self.nano < 2_000_000_000))
    }
}

/// `chrono::NaiveDateTime::checked_add_signed` with a `TimeDelta` of `secs`
/// seconds: the result is `plus_seconds(dt, secs)`; no claim is made on how
/// the calendar carries.
pub uninterp spec fn plus_seconds(dt: DateTime, secs: int) -> Option<DateTime>;

/// `chrono::NaiveDateTime::format(fmt).to_string()`.
pub uninterp spec fn formatted(dt: DateTime, fmt: Seq<char>) -> Seq<char>;

/// `chrono::NaiveDateTime::parse_from_str(s, fmt)`, `None` for an error.
pub uninterp spec fn parsed_datetime(s: Seq<char>, fmt: Seq<char>) -> Option<DateTime>;

/// The formats that this crate hands to `chrono`.
pub open spec fn known_format(fmt: Seq<char>) -> bool {
    fmt == "%Y-%m-%d %H:%M:%S"@ || fmt == "%Y-%m-%dT%H:%M:%S"@ || fmt == "%Y-%m-%dT%H:%M"@ || fmt
        == "%Y-%m-%d %H:%M"@ || fmt == "%H:%M"@ || fmt == "%m月%d日"@ || fmt
        == "%m月%d日 %H:%M"@
}

/// `chrono::NaiveDate::from_ymd_opt`: the date when it exists and lies in
/// `chrono`'s range.
#[verifier::external_body]
pub(crate) fn date_from_ymd(year: i32, month: u32, day: u32) -> (res: Option<Date>)
    ensures
        res == (if valid_ymd(year as int, month as int, day as int) {
            Some(Date { year, month, day })
        } else {
            None
        }),
{
    match chrono::NaiveDate::from_ymd_opt(year, month, day) {
        Some(d) => Some(Date { year: d.year(), month: d.month(), day: d.day() }),
        None => None,
    }
}

/// `chrono::NaiveDate::succ_opt`: the next day, `None` after the last
/// representable one; consecutive days have consecutive weekdays.
#[verifier::external_body]
pub(crate) fn next_day(d: Date) -> (res: Option<Date>)
    requires
        d.wf(),
    ensures
        res == succ(d),
        res matches Some(n) ==> weekday_number(n.year as int, n.month as int, n.day as int) == (
        weekday_number(d.year as int, d.month as int, d.day as int) + 1) % 7,
{
    match chrono::NaiveDate::from_ymd_opt(d.year, d.month, d.day).unwrap().succ_opt() {
        Some(n) => Some(Date { year: n.year(), month: n.month(), day: n.day() }),
        None => None,
    }
}

/// `chrono::Datelike::weekday` as `num_days_from_monday`.
#[verifier::external_body]
pub(crate) fn weekday(d: Date) -> (res: u32)
    requires
        d.wf(),
    ensures
        res as int == weekday_number(d.year as int, d.month as int, d.day as int),
        res < 7,
{
    chrono::NaiveDate::from_ymd_opt(d.year, d.month, d.day).unwrap().weekday().num_days_from_monday()
}

/// `chrono::NaiveDateTime::checked_add_signed(chrono::TimeDelta::seconds(secs))`.
#[verifier::external_body]
pub(crate) fn add_seconds(dt: DateTime, secs: i64) -> (res: Option<DateTime>)
    requires
        dt.wf(),
        -MAX_DELTA_SECS <= secs <= MAX_DELTA_SECS,
    ensures
        res == plus_seconds(dt, secs as int),
        res matches Some(r) ==> r.wf(),
{
    let d = dt.date;
    let n = chrono::NaiveDate::from_ymd_opt(d.year, d.month, d.day).unwrap().and_hms_nano_opt(
        dt.hour, dt.minute, dt.second, dt.nano).unwrap();
    match n.checked_add_signed(chrono::TimeDelta::seconds(secs)) {
        Some(r) => Some(DateTime {
            date: Date { year: r.year(), month: r.month(), day: r.day() },
            hour: r.hour(), minute: r.minute(), second: r.second(), nano: r.nanosecond() }),
        None => None,
    }
}

/// `chrono::NaiveDateTime::format(fmt).to_string()` for one of the formats
/// this crate uses.
#[verifier::external_body]
pub(crate) fn format_datetime(dt: DateTime, fmt: &str) -> (res: String)
    requires
        dt.wf(),
        known_format(fmt@),
    ensures
        res@ == formatted(dt, fmt@),
{
    let d = dt.date;
    chrono::NaiveDate::from_ymd_opt(d.year, d.month, d.day).unwrap().and_hms_nano_opt(
        dt.hour, dt.minute, dt.second, dt.nano).unwrap().format(fmt).to_string()
}

/// `chrono::NaiveDateTime::parse_from_str(s, fmt)`, with an error as `None`.
#[verifier::external_body]
pub(crate) fn parse_datetime(s: &str, fmt: &str) -> (res: Option<DateTime>)
    ensures
        res == parsed_datetime(s@, fmt@),
        res matches Some(r) ==> r.wf(),
{
    match chrono::NaiveDateTime::parse_from_str(s, fmt) {
        Ok(r) => Some(DateTime {
            date: Date { year: r.year(), month: r.month(), day: r.day() },
            hour: r.hour(), minute: r.minute(), second: r.second(), nano: r.nanosecond() }),
        Err(_) => None,
    }
}

/// The date `k` days after `d`, when every step stays in range.
pub open spec fn days_after(d: Date, k: nat) -> Option<Date>
    decreases k,
{
    if k == 0 {
        Some(d)
    } else {
        match days_after(d, (k - 1) as nat) {
            Some(p) => succ(p),
            None => None,
        }
    }
}

pub proof fn lemma_succ_wf(d: Date)
    requires
        d.wf(),
    ensures
        succ(d) matches Some(n) ==> n.wf(),
{
}

/// The number of days from weekday `w` to the next weekday `wd`, 1 to 7.
pub open spec fn days_to_weekday(w: int, wd: int) -> int {
    (wd - w - 1) % 7 + 1
}

/// The first day after `from` that falls on weekday `wd`.
pub open spec fn next_weekday_spec(from: Date, wd: int) -> Option<Date> {
    days_after(from, days_to_weekday(from.weekday(), wd) as nat)
}

/// `from` itself when it falls on `wd`, else the next such day.
pub open spec fn next_or_today_weekday_spec(from: Date, wd: int) -> Option<Date> {
    if from.weekday() == wd {
        Some(from)
    } else {
        next_weekday_spec(from, wd)
    }
}

pub fn next_weekday(from: Date, wd: u32) -> (res: Option<Date>)
    requires
        from.wf(),
        wd < 7,
    ensures
        res == next_weekday_spec(from, wd as int),
        res matches Some(r) ==> r.wf() && r.weekday() == wd,
{
    let w0 = weekday(from);
    let ghost steps = days_to_weekday(w0 as int, wd as int);
    assert(1 <= steps <= 7);
    let mut d = match next_day(from) {
        Some(n) => n,
        None => {
            assert(days_after(from, 1) == succ(from)) by {
                reveal_with_fuel(days_after, 2);
            }
            proof {
                lemma_days_after_none(from, 1, steps as nat);
            }
            return None;
        },
    };
    let mut j: u32 = 1;
    assert(days_after(from, 1) == Some(d)) by {
        reveal_with_fuel(days_after, 2);
    }
    proof {
        lemma_succ_wf(from);
    }
    while weekday(d) != wd
        invariant
            from.wf(),
            d.wf(),
            wd < 7,
            w0 as int == from.weekday(),
            0 <= w0 < 7,
            steps == days_to_weekday(w0 as int, wd as int),
            1 <= j <= steps <= 7,
            days_after(from, j as nat) == Some(d),
            d.weekday() == (w0 + j) % 7,
        decreases steps - j,
    {
        assert(j < steps) by {
            if j == steps {
                assert((w0 + steps) % 7 == wd) by (nonlinear_arith)
                    requires
                        steps == (wd - w0 - 1) % 7 + 1,
                        0 <= w0 < 7,
                        0 <= wd < 7,
                ;
            }
        }
        match next_day(d) {
            Some(n) => {
                proof {
                    lemma_succ_wf(d);
                    assert((((w0 + j) % 7) + 1) % 7 == (w0 + j + 1) % 7) by (nonlinear_arith);
                }
                d = n;
                j = j + 1;
            },
            None => {
                proof {
                    lemma_days_after_none(from, (j + 1) as nat, steps as nat);
                }
                return None;
            },
        }
    }
    assert(j == steps) by {
        assert(j == steps) by (nonlinear_arith)
            requires
                steps == (wd - w0 - 1) % 7 + 1,
                (w0 + j) % 7 == wd,
                1 <= j <= steps,
                0 <= w0 < 7,
                0 <= wd < 7,
        ;
    }
    Some(d)
}

pub proof fn lemma_days_after_none(d: Date, k: nat, n: nat)
    requires
        k <= n,
        days_after(d, k) is None,
    ensures
        days_after(d, n) is None,
    decreases n - k,
{
    if k < n {
        lemma_days_after_none(d, k + 1, n);
    }
}

pub fn next_or_today_weekday(from: Date, wd: u32) -> (res: Option<Date>)
    requires
        from.wf(),
        wd < 7,
    ensures
        res == next_or_today_weekday_spec(from, wd as int),
        res matches Some(r) ==> r.wf() && r.weekday() == wd,
{
    if weekday(from) == wd {
        return Some(from);
    }
    next_weekday(from, wd)
}

} // verus!
