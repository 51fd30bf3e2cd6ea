//! Spoken due times: "3分钟后", "明天早上9点", "周五晚上", "5月3号下午两点"…
//! Hours may be said in digits or in Chinese numerals. A day without a
//! said hour defaults to 18:00 when it is today and to 09:00 otherwise.
use crate::text::{
    all_digits, contains_any, contains_char, contains_str, digit_prefix_len, digit_run_before,
    digit_run_from, digit_suffix_len, digits_of, digits_value, digits_value_upto, digits_vec,
    find, find_first, has_any, has_prefix, has_sub, lemma_digit_prefix_len,
    lemma_digit_suffix_len, lemma_digits_of_all_digits, lemma_find_first, occurs_at, parse_u32,
    parse_u32_exec, starts_with_str, subvec, trimmed_chars,
};
use crate::time::{
    add_seconds, next_or_today_weekday, next_or_today_weekday_spec, next_weekday,
    next_weekday_spec, plus_seconds, succ, valid_ymd, Date, DateTime, MAX_DELTA_SECS, date_from_ymd,
    next_day,
};
use vstd::prelude::*;

verus! {

/// The value of one Chinese numeral character from 一 to 十.
pub open spec fn chinese_digit(c: char) -> Option<int> {
    if c == '一' {
        Some(1)
    } else if c == '二' || c == '两' {
        Some(2)
    } else if c == '三' {
        Some(3)
    } else if c == '四' {
        Some(4)
    } else if c == '五' {
        Some(5)
    } else if c == '六' {
        Some(6)
    } else if c == '七' {
        Some(7)
    } else if c == '八' {
        Some(8)
    } else if c == '九' {
        Some(9)
    } else if c == '十' {
        Some(10)
    } else {
        None
    }
}

/// The value of the first Chinese numeral in `s[i..]`.
pub open spec fn first_chinese_digit(s: Seq<char>, i: int) -> Option<int>
    decreases s.len() - i,
{
    if i < 0 || i >= s.len() {
        None
    } else if chinese_digit(s[i]) is Some {
        chinese_digit(s[i])
    } else {
        first_chinese_digit(s, i + 1)
    }
}

/// The amount said in `s`: its ASCII digits read as an `i64` when it has
/// any (`None` when they overflow), else its first Chinese numeral.
pub open spec fn amount_in(s: Seq<char>) -> Option<int> {
    let d = digits_of(s);
    if d.len() > 0 {
        if digits_value(d) <= i64::MAX {
            Some(digits_value(d) as int)
        } else {
            None
        }
    } else {
        first_chinese_digit(s, 0)
    }
}

fn chinese_digit_exec(c: char) -> (res: Option<i64>)
    ensures
        match res {
            Some(n) => chinese_digit(c) == Some(n as int),
            None => chinese_digit(c) is None,
        },
{
    if c == '一' {
        Some(1)
    } else if c == '二' || c == '两' {
        Some(2)
    } else if c == '三' {
        Some(3)
    } else if c == '四' {
        Some(4)
    } else if c == '五' {
        Some(5)
    } else if c == '六' {
        Some(6)
    } else if c == '七' {
        Some(7)
    } else if c == '八' {
        Some(8)
    } else if c == '九' {
        Some(9)
    } else if c == '十' {
        Some(10)
    } else {
        None
    }
}

fn extract_number(s: &Vec<char>) -> (res: Option<i64>)
    ensures
        match res {
            Some(n) => amount_in(s@) == Some(n as int) && n >= 0,
            None => amount_in(s@) is None,
        },
{
    let d = digits_vec(s);
    if d.len() > 0 {
        proof {
            lemma_digits_of_all_digits(s@);
        }
        return match digits_value_upto(&d, 9223372036854775807) {
            Some(n) => Some(n as i64),
            None => None,
        };
    }
    let mut i: usize = 0;
    while i < s.len()
        invariant
            i <= s.len(),
            d@ == digits_of(s@),
            d@.len() == 0,
            first_chinese_digit(s@, 0) == first_chinese_digit(s@, i as int),
        decreases s.len() - i,
    {
        match chinese_digit_exec(s[i]) {
            Some(n) => {
                return Some(n);
            },
            None => {},
        }
        i = i + 1;
    }
    None
}

/// How far ahead a relative expression reaches.
pub enum Relative {
    Minutes(int),
    Hours(int),
    Days(int),
    NotRelative,
}

pub open spec fn relative_of(s: Seq<char>) -> Relative {
    if has_sub(s, "半小时"@) {
        Relative::Minutes(30)
    } else if has_sub(s, "分钟"@) && amount_in(s) is Some {
        Relative::Minutes(amount_in(s)->0)
    } else if has_sub(s, "小时"@) && amount_in(s) is Some {
        Relative::Hours(amount_in(s)->0)
    } else if has_sub(s, "天后"@) && amount_in(s) is Some {
        Relative::Days(amount_in(s)->0)
    } else {
        Relative::NotRelative
    }
}

/// The amount of a relative expression, in seconds.
pub open spec fn relative_secs(r: Relative) -> int {
    match r {
        Relative::Minutes(m) => m * 60,
        Relative::Hours(h) => h * 3600,
        Relative::Days(d) => d * 86400,
        Relative::NotRelative => 0,
    }
}

/// Whether the amount of a relative expression fits in a `chrono::TimeDelta`
/// (`chrono` panics on a larger one).
pub open spec fn amount_fits(expr: Seq<char>) -> bool {
    relative_secs(relative_of(crate::text::trim(expr))) <= MAX_DELTA_SECS
}

/// The weekday patterns "周X" and "星期X" for X in 一二三四五六日天, the
/// last two both naming Sunday.
pub open spec fn zhou_names() -> Seq<&'static str> {
    seq!["周一", "周二", "周三", "周四", "周五", "周六", "周日", "周天"]
}

pub open spec fn xingqi_names() -> Seq<&'static str> {
    seq!["星期一", "星期二", "星期三", "星期四", "星期五", "星期六", "星期日", "星期天"]
}

pub open spec fn mentions_weekday(s: Seq<char>, i: int) -> bool {
    has_sub(s, zhou_names()[i]@) || has_sub(s, xingqi_names()[i]@)
}

/// The first weekday pattern, from `i` on, that `s` mentions, as a weekday
/// number (Monday 0 … Sunday 6).
pub open spec fn weekday_from(s: Seq<char>, i: int) -> Option<int>
    decreases 8 - i,
{
    if i < 0 || i >= 8 {
        None
    } else if mentions_weekday(s, i) {
        Some(if i < 6 {
            i
        } else {
            6
        })
    } else {
        weekday_from(s, i + 1)
    }
}

/// The month and day written as "M月D": the whole text before the first
/// '月' read as a `u32`, then the digits right after it.
pub open spec fn month_day(s: Seq<char>) -> Option<(int, int)> {
    match find_first(s, "月"@) {
        Some(k) => {
            let rest = s.subrange(k + 1, s.len() as int);
            let dd = rest.subrange(0, digit_prefix_len(rest) as int);
            match parse_u32(s.subrange(0, k)) {
                Some(m) => if dd.len() > 0 && digits_value(dd) <= u32::MAX {
                    Some((m, digits_value(dd) as int))
                } else {
                    None
                },
                None => None,
            }
        },
        None => None,
    }
}

pub open spec fn has_time_expr(s: Seq<char>) -> bool {
    s.contains('点') || has_any(s, seq!["上午", "下午", "晚上"])
}

/// The day that a non-relative expression names, from `today`; `None`
/// when it names none or the day is out of range.
pub open spec fn base_date(s: Seq<char>, today: Date, year: int) -> Option<Date> {
    if has_sub(s, "后天"@) {
        match succ(today) {
            Some(t) => succ(t),
            None => None,
        }
    } else if has_any(s, seq!["明天", "明日"]) {
        succ(today)
    } else if has_any(s, seq!["今天", "今日", "今晚"]) {
        Some(today)
    } else if has_prefix(s, "下"@) && weekday_from(s, 0) is Some {
        next_weekday_spec(today, weekday_from(s, 0)->0)
    } else if weekday_from(s, 0) is Some {
        next_or_today_weekday_spec(today, weekday_from(s, 0)->0)
    } else if month_day(s) is Some {
        let (m, d) = month_day(s)->0;
        if valid_ymd(year, m, d) {
            Some(Date { year: year as i32, month: m as u32, day: d as u32 })
        } else {
            None
        }
    } else if has_time_expr(s) {
        Some(today)
    } else {
        None
    }
}

/// A `u32` read from a run of digits, or `default` when it does not fit.
pub open spec fn digits_or(d: Seq<char>, default: int) -> int {
    if d.len() > 0 && digits_value(d) <= u32::MAX {
        digits_value(d) as int
    } else {
        default
    }
}

pub open spec fn min_int(a: int, b: int) -> int {
    if a < b {
        a
    } else {
        b
    }
}

/// The value of a Chinese numeral from 一 to 九 (两 for 二).
pub open spec fn units_digit(c: char) -> Option<int> {
    match chinese_digit(c) {
        Some(v) => if v < 10 {
            Some(v)
        } else {
            None
        },
        None => None,
    }
}

/// The Chinese numeral of up to two places that ends `b`: "三" 3, "十" 10,
/// "十二" 12, "二十" 20, "二十三" 23; `None` when `b` does not end in one.
pub open spec fn chinese_number_end(b: Seq<char>) -> Option<int> {
    let n = b.len() as int;
    if n == 0 {
        None
    } else if b[n - 1] == '十' {
        if n >= 2 && units_digit(b[n - 2]) is Some {
            Some(10 * units_digit(b[n - 2])->0)
        } else {
            Some(10)
        }
    } else if units_digit(b[n - 1]) is Some {
        let v = units_digit(b[n - 1])->0;
        if n >= 2 && b[n - 2] == '十' {
            if n >= 3 && units_digit(b[n - 3]) is Some {
                Some(10 * units_digit(b[n - 3])->0 + v)
            } else {
                Some(10 + v)
            }
        } else {
            Some(v)
        }
    } else {
        None
    }
}

/// The hour written just before `b`'s end: its ASCII digits, else its
/// Chinese numeral, else `default`.
pub open spec fn hour_before(b: Seq<char>, default: int) -> int {
    let run = b.subrange(b.len() - digit_suffix_len(b), b.len() as int);
    let spoken = match chinese_number_end(b) {
        Some(v) => v,
        None => default,
    };
    digits_or(run, spoken)
}

/// The hour and minute that `s` says, before clamping.
pub open spec fn raw_time_of(s: Seq<char>, is_today: bool) -> (int, int) {
    let default = if is_today {
        18
    } else {
        9
    };
    match find_first(s, "点半"@) {
        Some(p) => (hour_before(s.subrange(0, p), default), 30),
        None => match find_first(s, "点"@) {
            Some(p) => {
                let hh = hour_before(s.subrange(0, p), default);
                let after = s.subrange(p + 1, s.len() as int);
                let mm = digits_or(after.subrange(0, digit_prefix_len(after) as int), 0);
                if hh <= 6 && has_any(s, seq!["下午", "晚上", "今晚"]) {
                    (hh + 12, mm)
                } else {
                    (hh, mm)
                }
            },
            None => if has_any(s, seq!["下午", "晚上"]) {
                (15, 0)
            } else if has_sub(s, "上午"@) {
                (10, 0)
            } else {
                (default, 0)
            },
        },
    }
}

/// The hour and minute of the day, 24 read as 0, clamped to 23:59.
pub open spec fn time_of(s: Seq<char>, is_today: bool) -> (int, int) {
    let (h, m) = raw_time_of(s, is_today);
    let h = if h == 24 {
        0
    } else {
        h
    };
    (min_int(h, 23), min_int(m, 59))
}

/// What `parse_due` gives for `expr` at the moment `now`.
pub open spec fn due_of(expr: Seq<char>, now: DateTime) -> Option<DateTime> {
    let s = crate::text::trim(expr);
    if s.len() == 0 {
        None
    } else {
        match relative_of(s) {
            Relative::NotRelative => match base_date(s, now.date, now.date.year as int) {
                Some(date) => {
                    let (h, m) = time_of(s, date == now.date);
                    Some(DateTime { date, hour: h as u32, minute: m as u32, second: 0, nano: 0 })
                },
                None => None,
            },
            r => plus_seconds(now, relative_secs(r)),
        }
    }
}

fn relative_exec(s: &Vec<char>) -> (res: (u8, i64))
    ensures
        res.0 <= 3,
        res.1 >= 0,
        match relative_of(s@) {
            Relative::Minutes(m) => res.0 == 1 && res.1 == m,
            Relative::Hours(h) => res.0 == 2 && res.1 == h,
            Relative::Days(d) => res.0 == 3 && res.1 == d,
            Relative::NotRelative => res.0 == 0,
        },
{
    if contains_str(s, "半小时") {
        return (1, 30);
    }
    let n = extract_number(s);
    match n {
        Some(v) => {
            if contains_str(s, "分钟") {
                (1, v)
            } else if contains_str(s, "小时") {
                (2, v)
            } else if contains_str(s, "天后") {
                (3, v)
            } else {
                (0, 0)
            }
        },
        None => (0, 0),
    }
}

/// Whether the amount in `expr` fits in a `chrono::TimeDelta`.
pub fn due_amount_fits(expr: &str) -> (res: bool)
    ensures
        res == amount_fits(expr@),
{
    let s = trimmed_chars(expr);
    let (kind, n) = relative_exec(&s);
    if kind == 1 {
        n <= MAX_DELTA_SECS / 60
    } else if kind == 2 {
        n <= MAX_DELTA_SECS / 3600
    } else if kind == 3 {
        n <= MAX_DELTA_SECS / 86400
    } else {
        true
    }
}

fn weekday_in(s: &Vec<char>) -> (res: Option<u32>)
    ensures
        match res {
            Some(w) => weekday_from(s@, 0) == Some(w as int) && w < 7,
            None => weekday_from(s@, 0) is None,
        },
{
    let zhou = ["周一", "周二", "周三", "周四", "周五", "周六", "周日", "周天"];
    let xingqi = ["星期一", "星期二", "星期三", "星期四", "星期五", "星期六", "星期日", "星期天"];
    assert(zhou@ =~= zhou_names());
    assert(xingqi@ =~= xingqi_names());
    let mut i: usize = 0;
    while i < 8
        invariant
            i <= 8,
            zhou@ == zhou_names(),
            xingqi@ == xingqi_names(),
            weekday_from(s@, 0) == weekday_from(s@, i as int),
        decreases 8 - i,
    {
        if contains_str(s, zhou[i]) || contains_str(s, xingqi[i]) {
            return Some(
                if i < 6 {
                    i as u32
                } else {
                    6
                },
            );
        }
        i = i + 1;
    }
    None
}

fn month_day_exec(s: &Vec<char>) -> (res: Option<(u32, u32)>)
    ensures
        match res {
            Some((m, d)) => month_day(s@) == Some((m as int, d as int)),
            None => month_day(s@) is None,
        },
{
    let yue = crate::text::chars_of("月");
    match find(s, &yue) {
        Some(k) => {
            proof {
                lemma_find_first(s@, "月"@);
                assert(occurs_at(s@, "月"@, k as int));
            }
            assert(k + yue.len() <= s.len());
            let head = subvec(s, 0, k);
            let m = parse_u32_exec(&head);
            let dd = digit_run_from(s, k + yue.len());
            proof {
                reveal_strlit("月");
                lemma_digit_prefix_len(s@.subrange(k + 1, s.len() as int));
            }
            match m {
                Some(m) => {
                    match digits_value_upto(&dd, 4294967295) {
                        Some(d) => Some((m, d as u32)),
                        None => None,
                    }
                },
                None => None,
            }
        },
        None => None,
    }
}

fn has_time_expr_exec(s: &Vec<char>) -> (res: bool)
    ensures
        res == has_time_expr(s@),
{
    let keys = ["上午", "下午", "晚上"];
    assert(keys@ =~= seq!["上午", "下午", "晚上"]);
    contains_char(s, '点') || contains_any(s, &keys)
}

fn base_date_exec(s: &Vec<char>, now: DateTime) -> (res: Option<Date>)
    requires
        now.wf(),
    ensures
        res == base_date(s@, now.date, now.date.year as int),
        res matches Some(d) ==> d.wf(),
{
    let today = now.date;
    let tomorrow_keys = ["明天", "明日"];
    let today_keys = ["今天", "今日", "今晚"];
    assert(tomorrow_keys@ =~= seq!["明天", "明日"]);
    assert(today_keys@ =~= seq!["今天", "今日", "今晚"]);
    proof {
        crate::time::lemma_succ_wf(today);
    }
    if contains_str(s, "后天") {
        match next_day(today) {
            Some(t) => {
                proof {
                    crate::time::lemma_succ_wf(t);
                }
                next_day(t)
            },
            None => None,
        }
    } else if contains_any(s, &tomorrow_keys) {
        next_day(today)
    } else if contains_any(s, &today_keys) {
        Some(today)
    } else {
        let wd = weekday_in(s);
        match wd {
            Some(w) => {
                if starts_with_str(s, "下") {
                    next_weekday(today, w)
                } else {
                    next_or_today_weekday(today, w)
                }
            },
            None => {
                match month_day_exec(s) {
                    Some((m, d)) => date_from_ymd(today.year, m, d),
                    None => {
                        if has_time_expr_exec(s) {
                            Some(today)
                        } else {
                            None
                        }
                    },
                }
            },
        }
    }
}

fn digits_or_exec(d: &Vec<char>, default: u32) -> (res: u32)
    requires
        all_digits(d@),
    ensures
        res as int == crate::timeparse::digits_or(d@, default as int),
{
    match digits_value_upto(d, 4294967295) {
        Some(v) => v as u32,
        None => default,
    }
}

fn units_digit_exec(c: char) -> (res: Option<u32>)
    ensures
        match res {
            Some(v) => units_digit(c) == Some(v as int) && v < 10,
            None => units_digit(c) is None,
        },
{
    match chinese_digit_exec(c) {
        Some(v) => if v < 10 {
            Some(v as u32)
        } else {
            None
        },
        None => None,
    }
}

fn chinese_number_before(s: &Vec<char>, p: usize) -> (res: Option<u32>)
    requires
        p <= s.len(),
    ensures
        match res {
            Some(v) => chinese_number_end(s@.subrange(0, p as int)) == Some(v as int),
            None => chinese_number_end(s@.subrange(0, p as int)) is None,
        },
{
    let ghost b = s@.subrange(0, p as int);
    if p == 0 {
        return None;
    }
    let last = s[p - 1];
    assert(b[p - 1] == last);
    if last == '十' {
        if p >= 2 {
            assert(b[p - 2] == s@[p - 2]);
            if let Some(t) = units_digit_exec(s[p - 2]) {
                return Some(10 * t);
            }
        }
        return Some(10);
    }
    match units_digit_exec(last) {
        Some(v) => {
            if p >= 2 && s[p - 2] == '十' {
                assert(b[p - 2] == s@[p - 2]);
                if p >= 3 {
                    assert(b[p - 3] == s@[p - 3]);
                    if let Some(t) = units_digit_exec(s[p - 3]) {
                        return Some(10 * t + v);
                    }
                }
                Some(10 + v)
            } else {
                Some(v)
            }
        },
        None => None,
    }
}

fn hour_before_exec(s: &Vec<char>, p: usize, default: u32) -> (res: u32)
    requires
        p <= s.len(),
    ensures
        res as int == hour_before(s@.subrange(0, p as int), default as int),
{
    let run = digit_run_before(s, p);
    proof {
        lemma_digit_suffix_len(s@.subrange(0, p as int));
    }
    let spoken = match chinese_number_before(s, p) {
        Some(v) => v,
        None => default,
    };
    digits_or_exec(&run, spoken)
}

fn time_of_exec(s: &Vec<char>, is_today: bool) -> (res: (u32, u32))
    ensures
        (res.0 as int, res.1 as int) == time_of(s@, is_today),
{
    let default: u32 = if is_today {
        18
    } else {
        9
    };
    let dianban = crate::text::chars_of("点半");
    let dian = crate::text::chars_of("点");
    let pm_keys = ["下午", "晚上", "今晚"];
    let pm2_keys = ["下午", "晚上"];
    assert(pm_keys@ =~= seq!["下午", "晚上", "今晚"]);
    assert(pm2_keys@ =~= seq!["下午", "晚上"]);
    let (h, m): (u32, u32) = match find(s, &dianban) {
        Some(p) => {
            proof {
                lemma_find_first(s@, "点半"@);
                assert(occurs_at(s@, "点半"@, p as int));
            }
            (hour_before_exec(s, p, default), 30)
        },
        None => match find(s, &dian) {
            Some(p) => {
                proof {
                    lemma_find_first(s@, "点"@);
                    assert(occurs_at(s@, "点"@, p as int));
                    reveal_strlit("点");
                }
                proof {
                    lemma_digit_prefix_len(s@.subrange(p + 1, s.len() as int));
                }
                let hh = hour_before_exec(s, p, default);
                let after = digit_run_from(s, p + 1);
                let mm = digits_or_exec(&after, 0);
                if hh <= 6 && contains_any(s, &pm_keys) {
                    (hh + 12, mm)
                } else {
                    (hh, mm)
                }
            },
            None => {
                if contains_any(s, &pm2_keys) {
                    (15, 0)
                } else if contains_str(s, "上午") {
                    (10, 0)
                } else {
                    (default, 0)
                }
            },
        },
    };
    let h = if h == 24 {
        0
    } else {
        h
    };
    let h = if h < 23 {
        h
    } else {
        23
    };
    let mm = if m < 59 {
        m
    } else {
        59
    };
    (h, mm)
}

/// The moment that the spoken expression `expr` names, at the moment `now`.
pub fn parse_due(expr: &str, now: DateTime) -> (res: Option<DateTime>)
    requires
        now.wf(),
        amount_fits(expr@),
    ensures
        res == due_of(expr@, now),
        res matches Some(r) ==> r.wf(),
{
    let s = trimmed_chars(expr);
    if s.len() == 0 {
        return None;
    }
    let (kind, n) = relative_exec(&s);
    if kind == 1 {
        return add_seconds(now, n * 60);
    } else if kind == 2 {
        return add_seconds(now, n * 3600);
    } else if kind == 3 {
        return add_seconds(now, n * 86400);
    }
    match base_date_exec(&s, now) {
        Some(date) => {
            let (h, m) = time_of_exec(&s, date == now.date);
            Some(DateTime { date, hour: h, minute: m, second: 0, nano: 0 })
        },
        None => None,
    }
}


/// A due time that is not relative falls on a whole minute of a valid time
/// of day.
pub proof fn law_absolute_due_on_whole_minute(expr: Seq<char>, now: DateTime)
    requires
        relative_of(crate::text::trim(expr)) is NotRelative,
        due_of(expr, now) is Some,
    ensures
        due_of(expr, now)->0.second == 0,
        due_of(expr, now)->0.nano == 0,
        due_of(expr, now)->0.hour < 24,
        due_of(expr, now)->0.minute < 60,
{
    let s = crate::text::trim(expr);
    let date = base_date(s, now.date, now.date.year as int)->0;
    let (h, m) = time_of(s, date == now.date);
    let (rh, rm) = raw_time_of(s, date == now.date);
    assert(h <= 23 && m <= 59);
    assert(rh >= 0 && rm >= 0) by {
        let d = if date == now.date {
            18int
        } else {
            9int
        };
        assert(d >= 0);
    }
}


/// A day named without a time of day is due at 18:00 when it is today and
/// at 09:00 otherwise.
pub proof fn law_default_hours(expr: Seq<char>, now: DateTime)
    requires
        relative_of(crate::text::trim(expr)) is NotRelative,
        due_of(expr, now) is Some,
        !crate::text::trim(expr).contains('点'),
        !has_any(crate::text::trim(expr), seq!["上午", "下午", "晚上"]),
    ensures
        due_of(expr, now)->0.hour == (if due_of(expr, now)->0.date == now.date {
            18int
        } else {
            9int
        }),
        due_of(expr, now)->0.minute == 0,
{
    let s = crate::text::trim(expr);
    crate::text::lemma_find_first(s, "点半"@);
    crate::text::lemma_find_first(s, "点"@);
    if has_sub(s, "点半"@) {
        let i = choose|i: int| occurs_at(s, "点半"@, i);
        reveal_strlit("点半");
        assert(s.subrange(i, i + 2)[0] == '点');
        assert(s[i] == '点');
    }
    if has_sub(s, "点"@) {
        let i = choose|i: int| occurs_at(s, "点"@, i);
        reveal_strlit("点");
        assert(s.subrange(i, i + 1)[0] == '点');
        assert(s[i] == '点');
    }
    let pm = seq!["上午", "下午", "晚上"];
    let pm2 = seq!["下午", "晚上"];
    if has_any(s, pm2) {
        let i = choose|i: int| 0 <= i < pm2.len() && has_sub(s, #[trigger] pm2[i]@);
        assert(pm[i + 1] == pm2[i]);
    }
    if has_sub(s, "上午"@) {
        assert(pm[0]@ == "上午"@);
    }
}


proof fn lemma_digit_run_end(s: Seq<char>, k: int)
    requires
        0 <= k <= s.len(),
        all_digits(s.subrange(s.len() - k, s.len() as int)),
        s.len() - k == 0 || !crate::text::is_digit(s[s.len() - k - 1]),
    ensures
        digit_suffix_len(s) == k,
    decreases k,
{
    if k > 0 {
        let n = s.len() as int;
        assert(s.subrange(n - k, n)[k - 1] == s.last());
        let t = s.drop_last();
        assert forall|j: int| 0 <= j < k - 1 implies crate::text::is_digit(
            #[trigger] t.subrange(t.len() - (k - 1), t.len() as int)[j],
        ) by {
            assert(t.subrange(t.len() - (k - 1), t.len() as int)[j] == s.subrange(n - k, n)[j]);
        }
        if n - k > 0 {
            assert(t[t.len() - (k - 1) - 1] == s[n - k - 1]);
        }
        lemma_digit_run_end(t, k - 1);
    } else {
        if s.len() > 0 {
            assert(s[s.len() - 1] == s.last());
        }
    }
}

/// An hour of six or less, written in digits right before the first '点'
/// of an expression that says "下午", "晚上" or "今晚", is an afternoon or
/// evening hour: the due hour is twelve later (6 → 18).
pub proof fn law_evening_hours(expr: Seq<char>, now: DateTime, p: int, k: int)
    requires
        relative_of(crate::text::trim(expr)) is NotRelative,
        due_of(expr, now) is Some,
        has_sub(crate::text::trim(expr), "下午"@) || has_sub(crate::text::trim(expr), "晚上"@)
            || has_sub(crate::text::trim(expr), "今晚"@),
        !has_sub(crate::text::trim(expr), "点半"@),
        find_first(crate::text::trim(expr), "点"@) == Some(p),
        1 <= k <= p,
        all_digits(crate::text::trim(expr).subrange(p - k, p)),
        p - k == 0 || !crate::text::is_digit(crate::text::trim(expr)[p - k - 1]),
        digits_value(crate::text::trim(expr).subrange(p - k, p)) <= 6,
    ensures
        due_of(expr, now)->0.hour == digits_value(crate::text::trim(expr).subrange(p - k, p)) + 12,
{
    let s = crate::text::trim(expr);
    let before = s.subrange(0, p);
    lemma_find_first(s, "点"@);
    lemma_find_first(s, "点半"@);
    assert(before.subrange(before.len() - k, before.len() as int) =~= s.subrange(p - k, p));
    if p - k > 0 {
        assert(before[before.len() - k - 1] == s[p - k - 1]);
    }
    lemma_digit_run_end(before, k);
    let pm = seq!["下午", "晚上", "今晚"];
    if has_sub(s, "下午"@) {
        assert(has_sub(s, pm[0]@));
    } else if has_sub(s, "晚上"@) {
        assert(has_sub(s, pm[1]@));
    } else {
        assert(has_sub(s, pm[2]@));
    }
    assert(has_any(s, pm));
}

} // verus!
