use smartbc::db::reminders::normalize_due;
use smartbc::time::{next_weekday, Date, DateTime};
use smartbc::timeparse::{due_amount_fits, parse_due};

fn dt(y: i32, mo: u32, d: u32, h: u32, mi: u32) -> DateTime {
    DateTime { date: Date { year: y, month: mo, day: d }, hour: h, minute: mi, second: 0, nano: 0 }
}

// 2024-05-15 is a Wednesday.
fn now() -> DateTime {
    dt(2024, 5, 15, 10, 20)
}

#[test]
fn relative_minutes_hours_days() {
    assert_eq!(parse_due("3分钟后", now()), Some(dt(2024, 5, 15, 10, 23)));
    assert_eq!(parse_due("半小时后", now()), Some(dt(2024, 5, 15, 10, 50)));
    assert_eq!(parse_due("两小时后", now()), Some(dt(2024, 5, 15, 12, 20)));
    assert_eq!(parse_due("3天后", now()), Some(dt(2024, 5, 18, 10, 20)));
    assert_eq!(parse_due("十分钟后", now()), Some(dt(2024, 5, 15, 10, 30)));
}

#[test]
fn day_words_with_default_hours() {
    assert_eq!(parse_due("今天", now()), Some(dt(2024, 5, 15, 18, 0)));
    assert_eq!(parse_due("明天", now()), Some(dt(2024, 5, 16, 9, 0)));
    assert_eq!(parse_due("后天下午", now()), Some(dt(2024, 5, 17, 15, 0)));
    assert_eq!(parse_due("明天上午", now()), Some(dt(2024, 5, 16, 10, 0)));
}

#[test]
fn clock_times() {
    assert_eq!(parse_due("明天早上9点", now()), Some(dt(2024, 5, 16, 9, 0)));
    assert_eq!(parse_due("今晚6点", now()), Some(dt(2024, 5, 15, 18, 0)));
    assert_eq!(parse_due("今晚8点", now()), Some(dt(2024, 5, 15, 8, 0)));
    assert_eq!(parse_due("下午3点30", now()), Some(dt(2024, 5, 15, 15, 30)));
    assert_eq!(parse_due("明天7点半", now()), Some(dt(2024, 5, 16, 7, 30)));
    assert_eq!(parse_due("下午三点", now()), Some(dt(2024, 5, 15, 15, 0)));
    assert_eq!(parse_due("24点", now()), Some(dt(2024, 5, 15, 0, 0)));
    assert_eq!(parse_due("明天30点99", now()), Some(dt(2024, 5, 16, 23, 59)));
}

#[test]
fn clock_times_in_chinese_numerals() {
    assert_eq!(parse_due("下午两点", now()), Some(dt(2024, 5, 15, 14, 0)));
    assert_eq!(parse_due("十点", now()), Some(dt(2024, 5, 15, 10, 0)));
    assert_eq!(parse_due("明天十一点半", now()), Some(dt(2024, 5, 16, 11, 30)));
    assert_eq!(parse_due("二十三点", now()), Some(dt(2024, 5, 15, 23, 0)));
    assert_eq!(parse_due("明天早上八点15", now()), Some(dt(2024, 5, 16, 8, 15)));
    assert_eq!(parse_due("5月3号下午两点", now()), Some(dt(2024, 5, 3, 14, 0)));
}

#[test]
fn weekdays() {
    assert_eq!(parse_due("周五晚上", now()), Some(dt(2024, 5, 17, 15, 0)));
    assert_eq!(parse_due("周三", now()), Some(dt(2024, 5, 15, 18, 0)));
    assert_eq!(parse_due("下周三", now()), Some(dt(2024, 5, 22, 9, 0)));
    assert_eq!(parse_due("星期天", now()), Some(dt(2024, 5, 19, 9, 0)));
    assert_eq!(parse_due("周一上午", now()), Some(dt(2024, 5, 20, 10, 0)));
}

#[test]
fn month_and_day() {
    assert_eq!(parse_due("6月1号", now()), Some(dt(2024, 6, 1, 9, 0)));
    assert_eq!(parse_due("5月15日下午4点", now()), Some(dt(2024, 5, 15, 16, 0)));
    assert_eq!(parse_due("2月30日", now()), None);
    assert_eq!(parse_due("+2月3", now()), Some(dt(2024, 2, 3, 9, 0)));
}

#[test]
fn unparsable_or_empty() {
    assert_eq!(parse_due("", now()), None);
    assert_eq!(parse_due("   ", now()), None);
    assert_eq!(parse_due("喝水", now()), None);
    assert_eq!(parse_due("分钟后", now()), None);
}

#[test]
fn amounts_that_do_not_fit() {
    assert!(due_amount_fits("3分钟后"));
    assert!(!due_amount_fits("99999999999999999分钟后"));
    assert!(due_amount_fits("喝水"));
}

#[test]
fn calendar_through_due_times() {
    let eve = dt(2023, 12, 31, 20, 0);
    assert_eq!(parse_due("明天", eve), Some(dt(2024, 1, 1, 9, 0)));
    assert_eq!(parse_due("2月29日", now()), Some(dt(2024, 2, 29, 9, 0)));
    assert_eq!(parse_due("2月29日", eve), None);
    assert_eq!(parse_due("1天后", now()), Some(dt(2024, 5, 16, 10, 20)));
    assert_eq!(parse_due("25小时后", now()), Some(dt(2024, 5, 16, 11, 20)));
    assert_eq!(next_weekday(Date { year: 2024, month: 5, day: 15 }, 2), Some(Date { year: 2024, month: 5, day: 22 }));
    assert_eq!(next_weekday(Date { year: 2024, month: 5, day: 15 }, 0), Some(Date { year: 2024, month: 5, day: 20 }));
    assert_eq!(normalize_due("2024-05-15T10:20", now()), Some("2024-05-15 10:20:00".to_string()));
}
