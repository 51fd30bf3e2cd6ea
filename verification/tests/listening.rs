use smartbc::db::conversations::ConversationRow;
use smartbc::db::memories::PersonRow;
use smartbc::db::reminders::ReminderRow;
use smartbc::voice::commands::{app_not_found_message, count_pending, list_history, list_people, list_reminders, status_message};
use smartbc::voice::dialog::voice_span;
use smartbc::voice::feed::{Chunk, WavCursor};
use smartbc::voice::listener::RingBuffer;
use smartbc::voice::vad::VadHysteresis;

#[test]
fn voice_span_pads_fifteen_frames_each_side() {
    let mut loud = vec![false; 40];
    loud[20] = true;
    loud[22] = true;
    // 40 frames of 10 samples in a buffer of 405 samples.
    assert_eq!(voice_span(&loud, 10, 405), Some((50, 380)));
}

#[test]
fn voice_span_stays_within_the_buffer() {
    let mut loud = vec![false; 10];
    loud[1] = true;
    loud[9] = true;
    assert_eq!(voice_span(&loud, 4, 40), Some((0, 40)));
}

#[test]
fn voice_span_of_silence_is_none() {
    assert_eq!(voice_span(&[false; 8], 4, 32), None);
    assert_eq!(voice_span(&[], 4, 0), None);
}

#[test]
fn ring_buffer_keeps_the_latest_samples() {
    let mut rb: RingBuffer<i32> = RingBuffer::new(1, 4);
    rb.push(&[1, 2, 3]);
    assert_eq!(rb.snapshot(), vec![1, 2, 3]);
    rb.push(&[4, 5, 6]);
    assert_eq!(rb.snapshot(), vec![3, 4, 5, 6]);
    rb.clear();
    assert!(rb.snapshot().is_empty());
}

#[test]
fn ring_buffer_of_zero_capacity_keeps_one() {
    let mut rb: RingBuffer<i32> = RingBuffer::new(0, 16000);
    rb.push(&[7, 8, 9]);
    assert_eq!(rb.snapshot(), vec![9]);
}

#[test]
fn vad_needs_three_loud_and_ten_quiet_frames() {
    let mut v = VadHysteresis::new();
    assert!(!v.step(true));
    assert!(!v.step(true));
    assert!(v.step(true));
    for _ in 0..9 {
        assert!(v.step(false));
    }
    assert!(!v.step(false));
    assert_eq!(v.frames_below, 10);
    assert_eq!(v.frames_above, 0);
}

#[test]
fn vad_a_quiet_frame_resets_the_loud_count() {
    let mut v = VadHysteresis::new();
    v.step(true);
    v.step(true);
    assert!(!v.step(false));
    assert!(!v.step(true));
    assert_eq!(v.frames_above, 1);
}

#[test]
fn wav_cursor_chunks_then_silence_then_end() {
    let mut c = WavCursor::new(10, 5);
    assert_eq!(c.next_chunk(4), Some(Chunk { start: 0, take: 4, silence: 0 }));
    assert_eq!(c.next_chunk(4), Some(Chunk { start: 4, take: 4, silence: 0 }));
    assert_eq!(c.next_chunk(4), Some(Chunk { start: 8, take: 2, silence: 2 }));
    assert_eq!(c.next_chunk(4), Some(Chunk { start: 10, take: 0, silence: 3 }));
    assert_eq!(c.next_chunk(4), None);
}

fn conv(id: i64, transcript: &str, summary: Option<&str>) -> ConversationRow {
    ConversationRow {
        id,
        created_at: "2024-05-15 10:00:00".into(),
        transcript: transcript.into(),
        summary: summary.map(|s| s.to_string()),
        audio_path: None,
    }
}

#[test]
fn history_lists_three_most_recent() {
    assert_eq!(list_history(&[]), "还没有任何记录");
    let rows = vec![conv(4, "甲", None), conv(3, "乙长文", Some("乙")), conv(2, "丙", None), conv(1, "丁", None)];
    assert_eq!(list_history(&rows), "最近记录，1：甲。2：乙。3：丙");
}

fn rem(content: &str, due: Option<&str>, status: &str) -> ReminderRow {
    ReminderRow {
        id: 1,
        content: content.into(),
        due_at: due.map(|s| s.to_string()),
        status: status.into(),
        needs_time: due.is_none(),
        conversation_id: 1,
    }
}

#[test]
fn reminders_list_pending_only() {
    assert_eq!(list_reminders(&[rem("a", None, "done")]), "目前没有待办提醒");
    let rows = vec![rem("喝水", Some("2024-05-15 10:30:00"), "pending"), rem("x", None, "done"), rem("开会", None, "pending")];
    assert_eq!(count_pending(&rows), 2);
    assert_eq!(list_reminders(&rows), "你有2个待办，1：喝水(2024-05-15 10:30:00)。2：开会(时间待定)");
}

#[test]
fn reminders_list_at_most_five() {
    let rows: Vec<ReminderRow> = (0..7).map(|i| rem(&format!("r{}", i), None, "pending")).collect();
    let msg = list_reminders(&rows);
    assert!(msg.starts_with("你有7个待办，"));
    assert!(msg.ends_with("5：r4(时间待定)"));
}

#[test]
fn people_list() {
    assert_eq!(list_people(&[]), "你还没有记录过任何人脉");
    let p = PersonRow { id: 1, name: "张三".into(), relation: "同事".into(), note: String::new(), conversation_id: 1 };
    assert_eq!(list_people(&[p]), "你记录过1个人，1：张三（同事）");
}

#[test]
fn status_and_not_found_messages() {
    assert_eq!(status_message(true, &None, 3), "语音助手运行正常。模型已加载，当前设备系统默认，有3个待办提醒");
    assert_eq!(
        status_message(false, &Some("USB Mic".to_string()), 0),
        "语音助手运行正常。模型未加载，当前设备USB Mic，有0个待办提醒"
    );
    assert_eq!(app_not_found_message("QQ"), "没有找到应用「QQ」，可在设置里配置");
}

#[test]
fn wav_cursor_hands_out_everything_once() {
    let mut c = WavCursor::new(7, 3);
    let mut samples = Vec::new();
    let mut silence = 0;
    for m in [2usize, 5, 1, 4, 9] {
        match c.next_chunk(m) {
            Some(ch) => {
                assert!(ch.take + ch.silence >= 1 && ch.take + ch.silence <= m);
                samples.extend(ch.start..ch.start + ch.take);
                if ch.take > 0 {
                    assert_eq!(silence, 0);
                }
                silence += ch.silence;
            }
            None => break,
        }
    }
    assert_eq!(samples, (0..7).collect::<Vec<usize>>());
    assert_eq!(silence, 3);
    assert_eq!(c.next_chunk(4), None);
}

#[test]
fn ring_buffer_after_many_pushes() {
    let mut rb: RingBuffer<i32> = RingBuffer::new(1, 5);
    rb.push(&[1, 2]);
    rb.push(&[3]);
    rb.push(&[4, 5, 6, 7]);
    rb.push(&[]);
    assert_eq!(rb.snapshot(), vec![3, 4, 5, 6, 7]);
}
