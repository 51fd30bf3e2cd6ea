use smartbc::memory::types::{EpisodeExtract, MemoryExtraction, PersonExtract, PreferenceExtract, ReminderExtract};
use smartbc::time::{Date, DateTime};
use smartbc::voice::commands::SystemCommand;
use smartbc::voice::dialog::{
    build_record_message, friendly_time, handle_reminder_response, DialogLoop, DialogState, PendingTime,
    ReminderResponse, Reply, SentenceRoute, TickAction, TickInput, TranscriptOutcome,
};

fn dt(y: i32, mo: u32, d: u32, h: u32, mi: u32) -> DateTime {
    DateTime { date: Date { year: y, month: mo, day: d }, hour: h, minute: mi, second: 0, nano: 0 }
}

fn now() -> DateTime {
    dt(2024, 5, 15, 10, 20)
}

fn input(now_ms: u64, speaking: bool) -> TickInput {
    TickInput {
        now_ms,
        tts_playing: false,
        speaking,
        reminder_pending: false,
        buf_nonempty: true,
        buf_loud: true,
        buf_ms: 800,
        buf_over_5s: false,
        window_ms: 30_000,
    }
}

const NONE: TickAction = TickAction { check_wake: false, take_sentence: false, clear_buffer: false, clear_pending_reminder: false };

#[test]
fn burst_end_asks_for_wake_check_and_is_throttled() {
    let mut d = DialogLoop::new(0);
    assert_eq!(d.tick(input(100, true)), NONE);
    let a = d.tick(input(200, false));
    assert!(a.check_wake && a.clear_buffer);
    assert_eq!(d.last_wake_check_ms, Some(200));
    d.tick(input(300, true));
    let b = d.tick(input(400, false));
    assert!(!b.check_wake && b.clear_buffer);
    d.tick(input(2300, true));
    assert!(d.tick(input(2400, false)).check_wake);
}

#[test]
fn quiet_or_short_bursts_are_not_checked() {
    let mut d = DialogLoop::new(0);
    d.tick(input(100, true));
    let mut i = input(200, false);
    i.buf_ms = 299;
    assert!(!d.tick(i).check_wake);
    d.tick(input(300, true));
    let mut j = input(400, false);
    j.buf_loud = false;
    assert!(!d.tick(j).check_wake);
}

#[test]
fn wake_word_starts_listening() {
    let mut d = DialogLoop::new(0);
    let r = d.after_wake_check(&Ok("小贝小贝".to_string()), "小贝小贝", 5000);
    assert_eq!(r.as_deref(), Some("在呢，请说"));
    assert_eq!(d.state, DialogState::Active);
    assert_eq!(d.active_start_ms, 5000);
    let mut e = DialogLoop::new(0);
    assert_eq!(e.after_wake_check(&Ok("你好".to_string()), "小贝小贝", 5000), None);
    assert_eq!(e.state, DialogState::Idle);
    assert_eq!(e.after_wake_check(&Err("音频为空".to_string()), "小贝小贝", 5000), None);
}

#[test]
fn silence_ends_a_sentence_and_the_window_times_out() {
    let mut d = DialogLoop::new(0);
    d.after_wake_check(&Ok("小贝小贝".to_string()), "小贝小贝", 1000);
    d.tick(input(1100, true));
    assert_eq!(d.tick(input(2500, false)), NONE);
    let a = d.tick(input(2600, false));
    assert!(a.take_sentence);
    assert_eq!(d.state, DialogState::Processing);
    d.rewake(&Ok("小贝小贝".to_string()), "小贝小贝");
    assert_eq!(d.state, DialogState::Active);
    d.finish_sentence(3000);
    let mut quiet = input(33_000, false);
    quiet.buf_nonempty = false;
    let t = d.tick(quiet);
    assert!(t.clear_pending_reminder && t.clear_buffer && !t.take_sentence);
    assert_eq!(d.state, DialogState::Idle);
}

#[test]
fn quiet_sentence_is_dropped() {
    let mut d = DialogLoop::new(0);
    d.after_wake_check(&Ok("小贝小贝".to_string()), "小贝小贝", 0);
    let mut i = input(1600, false);
    i.buf_loud = false;
    let a = d.tick(i);
    assert!(!a.take_sentence && a.clear_buffer);
    assert_eq!(d.state, DialogState::Active);
}

#[test]
fn pending_reminder_wakes_and_tts_mutes() {
    let mut d = DialogLoop::new(0);
    let mut i = input(100, false);
    i.reminder_pending = true;
    d.tick(i);
    assert_eq!(d.state, DialogState::Active);
    assert_eq!(d.active_start_ms, 100);
    let mut t = input(200, true);
    t.tts_playing = true;
    let a = d.tick(t);
    assert_eq!(a, TickAction { check_wake: false, take_sentence: false, clear_buffer: true, clear_pending_reminder: false });
    assert_eq!(d.silence_since_ms, 200);
    assert!(!d.was_speaking);
}

#[test]
fn rewake_needs_a_short_text() {
    let mut d = DialogLoop::new(0);
    d.state = DialogState::Processing;
    assert_eq!(d.rewake(&Ok("小贝小贝今天天气怎么样呀".to_string()), "小贝小贝"), None);
    assert_eq!(d.state, DialogState::Processing);
    assert!(d.rewake(&Ok("小贝小贝".to_string()), "小贝小贝").is_some());
}

#[test]
fn routes_reminder_answers() {
    let mut d = DialogLoop::new(0);
    d.state = DialogState::Processing;
    assert_eq!(
        d.route(&Ok("好的完成了".to_string()), 7, now()),
        SentenceRoute::ReminderDone { rid: 7, reply: "好的，已帮你完成".into() }
    );
    assert_eq!(d.state, DialogState::Active);
    d.state = DialogState::Processing;
    assert_eq!(
        d.route(&Ok("延后5分钟".to_string()), 7, now()),
        SentenceRoute::ReminderDeferred {
            rid: 7,
            due: "2024-05-15 10:25:00".into(),
            reply: "好的，延后到今天10:25".into()
        }
    );
    assert_eq!(d.route(&Ok("嗯".to_string()), 7, now()), SentenceRoute::Say("可以说\"完成\"或\"延后5分钟\"".into()));
    assert_eq!(d.route(&Err("x".to_string()), 7, now()), SentenceRoute::Say("可以说\"完成\"或\"延后5分钟\"".into()));
}

#[test]
fn routes_time_answers_and_gives_up_after_two_retries() {
    let mut d = DialogLoop::new(0);
    d.pending_time = Some(PendingTime { id: 3, content: "喝水".into(), attempts: 0 });
    assert_eq!(
        d.route(&Ok("明天下午3点".to_string()), 0, now()),
        SentenceRoute::SetDue { id: 3, due: "2024-05-16 15:00:00".into(), reply: "好的，明天15:00提醒你喝水".into() }
    );
    assert_eq!(d.pending_time, None);
    d.pending_time = Some(PendingTime { id: 3, content: "喝水".into(), attempts: 1 });
    assert_eq!(d.route(&Ok("嗯嗯".to_string()), 0, now()), SentenceRoute::Say("没听清时间，请再说一次，比如'下午三点'".into()));
    assert_eq!(d.pending_time, Some(PendingTime { id: 3, content: "喝水".into(), attempts: 2 }));
    assert_eq!(d.route(&Ok("嗯嗯".to_string()), 0, now()), SentenceRoute::Say("暂时没设好时间，之后可以重新提醒我喝水".into()));
    assert_eq!(d.pending_time, None);
}

#[test]
fn routes_commands_transcripts_and_failures() {
    let mut d = DialogLoop::new(0);
    assert_eq!(d.route(&Ok("下一首".to_string()), 0, now()), SentenceRoute::System(SystemCommand::MediaNext));
    assert_eq!(d.route(&Ok("我明天要见张伟".to_string()), 0, now()), SentenceRoute::Transcript("我明天要见张伟".into()));
    d.state = DialogState::Processing;
    assert_eq!(d.route(&Err("音频为空".to_string()), 0, now()), SentenceRoute::Failed("查询失败：音频为空".into()));
    assert_eq!(d.state, DialogState::Active);
}

#[test]
fn transcript_outcomes() {
    let mut d = DialogLoop::new(0);
    d.state = DialogState::Processing;
    assert_eq!(d.after_transcript(Ok(TranscriptOutcome::Answered("答".into()))), Reply::Deliver("答".into()));
    d.state = DialogState::Processing;
    assert_eq!(
        d.after_transcript(Ok(TranscriptOutcome::NeedsTime(9, "提醒我喝水".into()))),
        Reply::Deliver("好的，什么时候提醒你喝水？".into())
    );
    assert_eq!(d.pending_time, Some(PendingTime { id: 9, content: "提醒我喝水".into(), attempts: 0 }));
    d.state = DialogState::Processing;
    assert_eq!(d.after_transcript(Err("网络错误".into())), Reply::NotifyError("查询失败：网络错误".into()));
    assert_eq!(d.state, DialogState::Active);
}

#[test]
fn reminder_responses() {
    assert_eq!(handle_reminder_response("搞定", now()), ReminderResponse::Done);
    assert_eq!(handle_reminder_response("推迟10分钟", now()), ReminderResponse::Deferred(dt(2024, 5, 15, 10, 30)));
    assert_eq!(handle_reminder_response("推迟一下", now()), ReminderResponse::Unknown);
    assert_eq!(handle_reminder_response("你好", now()), ReminderResponse::Unknown);
}

#[test]
fn friendly_times() {
    assert_eq!(friendly_time(dt(2024, 5, 15, 9, 5), now()), "今天09:05");
    assert_eq!(friendly_time(dt(2024, 5, 16, 18, 0), now()), "明天18:00");
    assert_eq!(friendly_time(dt(2024, 6, 1, 8, 30), now()), "06月01日08:30");
}

#[test]
fn record_messages() {
    let ext = MemoryExtraction {
        people: vec![PersonExtract { name: "张伟".into(), relation: "同事".into(), note: String::new() }],
        reminders: vec![ReminderExtract { content: "喝水".into(), due: None }],
        preferences: vec![PreferenceExtract { topic: "咖啡".into(), value: "美式".into() }],
        episode: Some(EpisodeExtract { summary: "开会".into(), people: vec![], place: None }),
    };
    assert_eq!(build_record_message(&ext), "已记录：提醒：喝水；人脉：张伟（同事）；偏好：咖啡：美式；事件：开会");
    assert_eq!(build_record_message(&MemoryExtraction::default()), "已记录：");
    assert!(ext.has_content());
    assert!(!MemoryExtraction::default().has_content());
}

#[test]
fn reminder_without_time_gets_the_spoken_time() {
    let mut d = DialogLoop::new(0);
    d.state = DialogState::Processing;
    assert_eq!(
        d.after_transcript(Ok(TranscriptOutcome::NeedsTime(4, "喝水".into()))),
        Reply::Deliver("好的，什么时候提醒你喝水？".into())
    );
    d.state = DialogState::Processing;
    assert_eq!(
        d.route(&Ok("下午三点".to_string()), 0, now()),
        SentenceRoute::SetDue { id: 4, due: "2024-05-15 15:00:00".into(), reply: "好的，今天15:00提醒你喝水".into() }
    );
    assert_eq!(d.pending_time, None);
}
