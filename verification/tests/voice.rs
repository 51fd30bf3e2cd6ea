use smartbc::voice::apps::{app_map, builtin_apps, resolve_app, AppMap};
use smartbc::voice::commands::{parse_system_command, DeviceTarget, SystemCommand};
use smartbc::voice::dialog::{transition, window_expired, DialogEvent, DialogState};
use smartbc::voice::reply::{deliver_plan, DeliverAction};
use smartbc::voice::wake::{contains_wake_word, fuzzy_contains, normalize_aspiration, pinyin_key};
use std::collections::HashMap;

#[test]
fn builtin_has_music_and_common() {
    let map: HashMap<String, String> = builtin_apps()
        .iter()
        .map(|(k, v)| (k.to_string(), v.to_string()))
        .collect();
    assert_eq!(map.get("计算器").map(|s| s.as_str()), Some("calc.exe"));
    assert_eq!(map.get("音乐").map(|s| s.as_str()), Some("wmplayer.exe"));
    assert!(map.contains_key("记事本"));
}

#[test]
fn config_overrides_builtin() {
    let overrides = vec![("音乐".to_string(), "D:/music/custom.exe".to_string())];
    let map = app_map(&overrides);
    assert_eq!(map.get("音乐").map(|s| s.as_str()), Some("D:/music/custom.exe"));
}

#[test]
fn resolve_exact_and_fuzzy() {
    let mut map = AppMap::new();
    map.insert("计算器".to_string(), "calc.exe".to_string());
    assert_eq!(resolve_app(&map, "计算器").map(|s| s.as_str()), Some("calc.exe"));
    assert_eq!(resolve_app(&map, "打开计算器").map(|s| s.as_str()), Some("calc.exe"));
    assert_eq!(resolve_app(&map, "不存在的应用"), None);
}

#[test]
fn app_map_keeps_builtin_and_adds_new_names() {
    let overrides = vec![("浏览器".to_string(), "msedge.exe".to_string())];
    let map = app_map(&overrides);
    assert_eq!(map.len(), 10);
    assert_eq!(map.get("计算器").map(|s| s.as_str()), Some("calc.exe"));
    assert_eq!(map.get("浏览器").map(|s| s.as_str()), Some("msedge.exe"));
}

#[test]
fn resolve_trims_the_name() {
    let map = app_map(&Vec::new());
    assert_eq!(resolve_app(&map, "  记事本 ").map(|s| s.as_str()), Some("notepad.exe"));
}

#[test]
fn plan_notification_by_default() {
    assert_eq!(deliver_plan(""), DeliverAction::Notification);
    assert_eq!(deliver_plan("notification"), DeliverAction::Notification);
    assert_eq!(deliver_plan("unknown"), DeliverAction::Notification);
}

#[test]
fn plan_voice() {
    assert_eq!(deliver_plan("voice"), DeliverAction::Voice);
}

#[test]
fn plan_both() {
    assert_eq!(deliver_plan("both"), DeliverAction::Both);
}

#[test]
fn pinyin_key_merges_homophones() {
    assert_eq!(pinyin_key("小贝小贝"), pinyin_key("小杯小杯"));
    assert_eq!(pinyin_key("小贝小贝"), pinyin_key("小辈小辈"));
}

#[test]
fn pinyin_key_skips_punctuation() {
    assert_eq!(pinyin_key("小贝﹑小贝"), "xiaobeixiaobei");
}

#[test]
fn pinyin_key_empty_for_ascii() {
    assert_eq!(pinyin_key("Hey："), "");
}

#[test]
fn matches_aspiration_confusion() {
    assert!(contains_wake_word("小沛小沛", "小贝小贝"));
    assert!(contains_wake_word("小培小培", "小贝小贝"));
}

#[test]
fn aspiration_normalized_equality() {
    assert_eq!(pinyin_key("小沛小沛"), pinyin_key("小贝小贝"));
}

#[test]
fn normalize_folds_aspirated_initials() {
    assert_eq!(normalize_aspiration("chapitakuqi"), "zhabidaguji");
    assert_eq!(normalize_aspiration(&normalize_aspiration("chuqu")), normalize_aspiration("chuqu"));
}

#[test]
fn fuzzy_allows_three_inserted_letters() {
    assert!(fuzzy_contains("xiaobeidexiaobei", "xiaobeixiaobei", 3));
    assert!(!fuzzy_contains("xiaobeidedexiaobei", "xiaobeixiaobei", 3));
    assert!(fuzzy_contains("xiaobeixiaobeiqingwen", "xiaobeixiaobei", 0));
    assert!(!fuzzy_contains("xiaobei", "xiaobeixiaobei", 3));
}

#[test]
fn wake_word_rejects_empty_inputs() {
    assert!(!contains_wake_word("", "小贝小贝"));
    assert!(!contains_wake_word("小贝小贝", ""));
    assert!(!contains_wake_word("小贝小贝", "Hey"));
    assert!(contains_wake_word("小贝的小贝，今天天气", "小贝小贝"));
}

#[test]
fn transitions_follow_the_table() {
    assert_eq!(transition(DialogState::Idle, DialogEvent::WakeWordHit), DialogState::Active);
    assert_eq!(transition(DialogState::Active, DialogEvent::SentenceEnd), DialogState::Processing);
    assert_eq!(transition(DialogState::Processing, DialogEvent::ProcessedOk), DialogState::Active);
    assert_eq!(transition(DialogState::Processing, DialogEvent::ProcessedErr), DialogState::Active);
    assert_eq!(transition(DialogState::Active, DialogEvent::WindowTimeout), DialogState::Idle);
    assert_eq!(transition(DialogState::Processing, DialogEvent::MicUnavailable), DialogState::Idle);
    assert_eq!(transition(DialogState::Idle, DialogEvent::SentenceEnd), DialogState::Idle);
    assert_eq!(transition(DialogState::Active, DialogEvent::VoiceStart), DialogState::Active);
}

#[test]
fn window_expires_at_its_length() {
    assert!(!window_expired(29_999, 30_000));
    assert!(window_expired(30_000, 30_000));
}

fn cmd(t: &str) -> SystemCommand {
    parse_system_command(t)
}

#[test]
fn commands_for_lists_and_status() {
    assert_eq!(cmd("帮我查看历史"), SystemCommand::ListHistory);
    assert_eq!(cmd("有什么提醒吗"), SystemCommand::ListReminders);
    assert_eq!(cmd("我认识谁"), SystemCommand::ListPeople);
    assert_eq!(cmd("助手状态"), SystemCommand::Status);
    assert_eq!(cmd("用内置的"), SystemCommand::SwitchDevice(DeviceTarget::Internal));
    assert_eq!(cmd("换耳机"), SystemCommand::SwitchDevice(DeviceTarget::Headset));
}

#[test]
fn commands_for_launching() {
    assert_eq!(
        cmd("用记事本打开 D:\\笔记.txt"),
        SystemCommand::LaunchWith("记事本".into(), "D:\\笔记.txt".into())
    );
    assert_eq!(cmd("打开计算器"), SystemCommand::LaunchApp("计算器".into()));
    assert_eq!(cmd("请打开 画图"), SystemCommand::LaunchApp("画图".into()));
    assert_eq!(cmd("打开"), SystemCommand::LaunchApp("打开".into()));
    assert_eq!(cmd("打开 baidu.com"), SystemCommand::OpenUrl("baidu.com".into()));
    assert_eq!(cmd("网址 example.org"), SystemCommand::OpenUrl("example.org".into()));
    assert_eq!(cmd("搜索 天气"), SystemCommand::Search("天气".into()));
    assert_eq!(cmd("搜索"), SystemCommand::NoCommand);
}

#[test]
fn commands_for_sound_and_media() {
    assert_eq!(cmd("静音"), SystemCommand::Mute(true));
    assert_eq!(cmd("取消静音"), SystemCommand::Mute(true));
    assert_eq!(cmd("恢复声音"), SystemCommand::Mute(false));
    assert_eq!(cmd("下一首"), SystemCommand::MediaNext);
    assert_eq!(cmd("上一首"), SystemCommand::MediaPrev);
    assert_eq!(cmd("来点音乐"), SystemCommand::PlayMusic);
    assert_eq!(cmd("暂停"), SystemCommand::MediaPlayPause);
    assert_eq!(cmd("调高音量"), SystemCommand::Volume(10));
    assert_eq!(cmd("音量小点"), SystemCommand::Volume(-10));
    assert_eq!(cmd("音量调到50"), SystemCommand::Volume(50));
    assert_eq!(cmd("音量200"), SystemCommand::NoCommand);
    assert_eq!(cmd("今天天气怎么样"), SystemCommand::NoCommand);
    assert!(cmd("随便说说").is_no_command());
}
