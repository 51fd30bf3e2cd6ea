use smartbc::db::reminders::ReminderRow;
use smartbc::memory::types::{EpisodeExtract, MemoryExtraction, PersonExtract, ReminderExtract};
use smartbc::voice::commands::DeviceTarget;
use smartbc::voice::dialog::{reminder_needing_time, stores_reminders, transcript_step, DialogLoop, PendingTime, TranscriptStep};
use smartbc::voice::log::{error_message, log_entry};
use smartbc::voice::outcome::{command_reply, volume_change, CommandOutcome, MediaKey, PlatformFeature, VolumeChange};

#[test]
fn command_replies() {
    assert_eq!(command_reply(&CommandOutcome::Opened), "好的，已打开");
    assert_eq!(command_reply(&CommandOutcome::OpenedFile), "好的，已打开文件");
    assert_eq!(command_reply(&CommandOutcome::OpenedPage), "好的，已打开网页");
    assert_eq!(command_reply(&CommandOutcome::MusicStarted), "好的，已开始播放");
    assert_eq!(command_reply(&CommandOutcome::OpenFailed("拒绝访问".into())), "打开失败：拒绝访问");
    assert_eq!(command_reply(&CommandOutcome::FileMissing("D:/a.txt".into())), "找不到文件：D:/a.txt");
    assert_eq!(command_reply(&CommandOutcome::VolumeSet(50)), "音量已调到 50");
    assert_eq!(command_reply(&CommandOutcome::VolumeSet(0)), "音量已调到 0");
    assert_eq!(command_reply(&CommandOutcome::VolumeFailed("无法读取当前音量".into())), "音量调节失败：无法读取当前音量");
    assert_eq!(command_reply(&CommandOutcome::Muted(true)), "已静音");
    assert_eq!(command_reply(&CommandOutcome::Muted(false)), "已恢复声音");
    assert_eq!(command_reply(&CommandOutcome::MuteFailed("x".into())), "静音操作失败：x");
    assert_eq!(command_reply(&CommandOutcome::Media(MediaKey::Next)), "已切换下一首");
    assert_eq!(command_reply(&CommandOutcome::Media(MediaKey::Prev)), "已切换上一首");
    assert_eq!(command_reply(&CommandOutcome::Media(MediaKey::PlayPause)), "已播放");
    assert_eq!(command_reply(&CommandOutcome::Unsupported(PlatformFeature::Volume)), "音量调节仅在 Windows 可用");
    assert_eq!(command_reply(&CommandOutcome::Unsupported(PlatformFeature::Mute)), "静音仅在 Windows 可用");
    assert_eq!(command_reply(&CommandOutcome::Unsupported(PlatformFeature::Media)), "媒体控制仅在 Windows 可用");
    assert_eq!(command_reply(&CommandOutcome::DeviceListFailed), "获取设备列表失败");
    assert_eq!(command_reply(&CommandOutcome::DeviceNotFound(DeviceTarget::Headset)), "没有找到耳机设备");
    assert_eq!(command_reply(&CommandOutcome::DeviceNotFound(DeviceTarget::Internal)), "没有找到麦克风设备");
    assert_eq!(command_reply(&CommandOutcome::SaveFailed("磁盘满".into())), "保存配置失败：磁盘满");
    assert_eq!(command_reply(&CommandOutcome::SwitchFailed("忙".into())), "切换设备失败：忙");
    assert_eq!(command_reply(&CommandOutcome::Switched("USB 麦克风".into())), "已切换到USB 麦克风");
}

#[test]
fn volume_levels_are_set_and_steps_added() {
    assert_eq!(volume_change(50), VolumeChange::SetTo(50));
    assert_eq!(volume_change(0), VolumeChange::SetTo(0));
    assert_eq!(volume_change(100), VolumeChange::SetTo(100));
    assert_eq!(volume_change(10), VolumeChange::SetTo(10));
    assert_eq!(volume_change(-10), VolumeChange::AddTo(-10));
}

#[test]
fn log_lines() {
    assert_eq!(log_entry("2024-05-15 10:00:00.000", "hello 测试"), "[2024-05-15 10:00:00.000] hello 测试");
    assert_eq!(error_message("boom"), "ERROR: boom");
}

fn row(id: i64, content: &str, needs_time: bool) -> ReminderRow {
    ReminderRow { id, content: content.into(), due_at: None, status: "pending".into(), needs_time, conversation_id: 1 }
}

#[test]
fn first_reminder_without_time_is_asked_about() {
    assert_eq!(reminder_needing_time(&[]), None);
    let rows = vec![Some(row(1, "喝水", false)), None, Some(row(3, "开会", true)), Some(row(4, "买菜", true))];
    assert_eq!(reminder_needing_time(&rows), Some((3, "开会".to_string())));
    assert_eq!(reminder_needing_time(&[Some(row(1, "喝水", false))]), None);
}

#[test]
fn memories_to_store() {
    let mut ext = MemoryExtraction { people: vec![], reminders: vec![], preferences: vec![], episode: None };
    assert!(!ext.has_memories());
    ext.reminders.push(ReminderExtract { content: "喝水".into(), due: None });
    assert!(!ext.has_memories());
    assert!(ext.has_content());
    ext.episode = Some(EpisodeExtract { summary: "开会".into(), people: vec![], place: None });
    assert!(ext.has_memories());
}

#[test]
fn due_times_read_only_where_asked_for() {
    let mut d = DialogLoop::new(0);
    assert!(!d.route_reads_due(&Ok("延后5分钟".to_string()), 0));
    assert!(d.route_reads_due(&Ok("延后5分钟".to_string()), 7));
    assert!(!d.route_reads_due(&Ok("完成了，不用延后".to_string()), 7));
    assert!(!d.route_reads_due(&Ok("好的".to_string()), 7));
    assert!(!d.route_reads_due(&Err("x".to_string()), 7));
    d.pending_time = Some(PendingTime { id: 1, content: "喝水".into(), attempts: 0 });
    assert!(d.route_reads_due(&Ok("下午三点".to_string()), 0));
}

#[test]
fn transcript_steps() {
    assert_eq!(transcript_step(&None, &[]), (TranscriptStep::Answer, false));
    assert!(!stores_reminders(&None));

    let empty = MemoryExtraction { people: vec![], reminders: vec![], preferences: vec![], episode: None };
    assert!(!stores_reminders(&Some(empty.clone())));
    assert_eq!(transcript_step(&Some(empty), &[]), (TranscriptStep::Answer, false));

    let ext = MemoryExtraction {
        people: vec![PersonExtract { name: "张伟".into(), relation: "同事".into(), note: String::new() }],
        reminders: vec![ReminderExtract { content: "喝水".into(), due: None }],
        preferences: vec![],
        episode: None,
    };
    assert!(stores_reminders(&Some(ext.clone())));
    assert_eq!(
        transcript_step(&Some(ext.clone()), &[Some(row(5, "喝水", true))]),
        (TranscriptStep::AskTime(5, "喝水".into()), false)
    );
    assert_eq!(
        transcript_step(&Some(ext.clone()), &[Some(row(5, "喝水", false))]),
        (TranscriptStep::Record("已记录：提醒：喝水；人脉：张伟（同事）".into()), true)
    );
    let only_reminder = MemoryExtraction { people: vec![], ..ext };
    assert_eq!(
        transcript_step(&Some(only_reminder), &[None]),
        (TranscriptStep::Record("已记录：提醒：喝水".into()), false)
    );
}
