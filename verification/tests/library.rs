use smartbc::asr::model::{asr_model_filename, model_path, wake_model_path};
use smartbc::audio::recorder::{choose_device, device_name, AudioDeviceInfo};
use smartbc::audio::wav::AudioError;
use smartbc::commands::record::prepare_transcript;
use smartbc::commands::voice::{voice_assistant_enabled, voice_status};
use smartbc::config::{cfg_uses_wake_model, config_path, listen_window_ms, load_api_key, music_source, Config};
use smartbc::db::memories::{is_allowed_table, plan_extraction_rows, PersonRow, PreferenceRow};
use smartbc::db::reminders::{is_valid_status, normalize_due, plan_reminder_rows, resolve_due, ReminderRow};
use smartbc::db::search::{search_mode, SearchHit, SearchMode};
use smartbc::llm::answer::build_answer_prompt;
use smartbc::memory::extract::{build_extract_prompt, clean_reminder_content};
use smartbc::memory::types::{EpisodeExtract, MemoryExtraction, PersonExtract, PreferenceExtract, ReminderExtract};
use smartbc::scheduler::{due_message, due_reminders_for_notification, friendly_due, overdue_message, reminders_to_notify};
use smartbc::telemetry::is_allowed_event;
use smartbc::time::{Date, DateTime};
use smartbc::voice::commands::DeviceTarget;
use smartbc::voice::launch::{launch_plan, search, urlencode, validate_url, LaunchPlan};

fn dt(y: i32, mo: u32, d: u32, h: u32, mi: u32) -> DateTime {
    DateTime { date: Date { year: y, month: mo, day: d }, hour: h, minute: mi, second: 0, nano: 0 }
}

fn now() -> DateTime {
    dt(2024, 5, 15, 10, 20)
}

#[test]
fn model_files_and_paths() {
    assert_eq!(asr_model_filename("medium"), "ggml-medium.bin");
    assert_eq!(asr_model_filename("small"), "ggml-small.bin");
    assert_eq!(asr_model_filename(""), "ggml-small.bin");
    assert_eq!(model_path("/data"), "/data/models/ggml-small.bin");
    assert_eq!(wake_model_path("/data"), "/data/models/ggml-base.bin");
    assert_eq!(config_path("/data"), "/data/config.json");
}

#[test]
fn config_defaults_and_choices() {
    let mut cfg = Config::default();
    assert_eq!(cfg.wake_word, "小贝小贝");
    assert_eq!(cfg.reply_mode, "both");
    assert_eq!(cfg.listen_window_secs, 30);
    assert_eq!(cfg.wake_model, "base");
    assert_eq!(cfg.input_device, None);
    assert!(cfg.api_key.is_empty());
    assert!(voice_assistant_enabled(&cfg));
    assert!(cfg_uses_wake_model(&cfg));
    cfg.wake_model = "small".into();
    assert!(!cfg_uses_wake_model(&cfg));
    assert_eq!(listen_window_ms(&cfg), 30_000);
    assert_eq!(music_source(&cfg), "orpheus://radio");
    assert_eq!(load_api_key(None, &cfg), None);
    cfg.api_key = "k1".into();
    cfg.wake_model = "tiny".into();
    cfg.listen_window_secs = 0;
    cfg.voice_assistant_enabled = true;
    assert!(cfg_uses_wake_model(&cfg));
    assert_eq!(listen_window_ms(&cfg), 1000);
    assert_eq!(load_api_key(Some("env".into()), &cfg), Some("env".into()));
    assert_eq!(load_api_key(Some(String::new()), &cfg), Some("k1".into()));
    let st = voice_status(&cfg);
    assert!(st.enabled);
    assert_eq!(st.state, "idle");
}

#[test]
fn transcripts_are_trimmed_or_refused() {
    assert_eq!(prepare_transcript("  你好 "), Ok("你好".to_string()));
    assert_eq!(prepare_transcript(" \n"), Err("转写结果为空，请重试".to_string()));
}

#[test]
fn devices_are_found_by_name() {
    let devs = vec![
        AudioDeviceInfo { index: 0, name: "麦克风 (Realtek)".into() },
        AudioDeviceInfo { index: 1, name: "Galaxy Buds2".into() },
    ];
    assert_eq!(choose_device(&devs, DeviceTarget::Internal), Some(0));
    assert_eq!(choose_device(&devs, DeviceTarget::Headset), Some(1));
    assert_eq!(choose_device(&devs[..1].to_vec(), DeviceTarget::Headset), None);
    assert_eq!(device_name(&devs, Some(1)), Some("Galaxy Buds2".to_string()));
    assert_eq!(device_name(&devs, None), None);
    assert_eq!(AudioError("no input device".into()).message(), "no input device");
}

#[test]
fn reminder_texts_are_cleaned() {
    assert_eq!(clean_reminder_content("提醒我喝水"), "喝水");
    assert_eq!(clean_reminder_content(" 帮我记得买牛奶 "), "买牛奶");
    assert_eq!(clean_reminder_content("提醒我"), "我");
    assert_eq!(clean_reminder_content(&clean_reminder_content("记得提醒我开会")), "我开会");
}

#[test]
fn prompts() {
    let p = build_extract_prompt("明天开会");
    assert!(p.starts_with("你是个人助理的记忆抽取器。"));
    assert!(p.ends_with("转写文本：\n明天开会"));
    assert!(p.contains("\"people\": [{\"name\": \"人名\""));
    let a = build_answer_prompt(
        "张伟是谁",
        &[SearchHit { conversation_id: 3, transcript: "t".into(), snippet: "和张伟开会".into() }],
        &[PersonRow { id: 1, name: "张伟".into(), relation: "同事".into(), note: "".into(), conversation_id: 3 }],
        &[PreferenceRow { id: 2, topic: "咖啡".into(), value: "美式".into(), conversation_id: 3 }],
    );
    assert!(a.starts_with("你是用户的私人记忆助理。"));
    assert!(a.ends_with("用户问题：张伟是谁\n\n相关对话记录：\n[对话 #3] 和张伟开会\n\n已记住的人脉：\n- 张伟（关系:同事, 备注:）\n\n已记住的偏好：\n- 咖啡: 美式\n"));
}

#[test]
fn database_rules() {
    assert!(is_valid_status("done"));
    assert!(!is_valid_status("later"));
    assert!(is_allowed_table("episodes"));
    assert!(!is_allowed_table("conversations"));
    assert!(is_allowed_event("query_asked"));
    assert!(!is_allowed_event("other"));
    assert_eq!(search_mode(" 张 "), SearchMode::Like("张".into()));
    assert_eq!(search_mode("a"), SearchMode::NoSearch);
    assert_eq!(search_mode("ab"), SearchMode::Like("ab".into()));
    assert_eq!(search_mode("张伟开会"), SearchMode::FullText("张伟开会".into()));
}

#[test]
fn reminder_due_times() {
    assert_eq!(resolve_due(&Some("明天9点".into()), now()), (Some("2024-05-16 09:00:00".into()), false));
    assert_eq!(resolve_due(&Some("2024-06-01T08:00:00".into()), now()), (Some("2024-06-01 08:00:00".into()), false));
    assert_eq!(resolve_due(&Some("改天".into()), now()), (Some("改天".into()), true));
    assert_eq!(resolve_due(&None, now()), (None, true));
    assert_eq!(normalize_due("2024-06-01T08:00", now()), Some("2024-06-01 08:00:00".into()));
    assert_eq!(normalize_due("2024-06-01 08:00", now()), Some("2024-06-01 08:00:00".into()));
    assert_eq!(normalize_due("随便", now()), None);
    let rows = plan_reminder_rows(
        &vec![
            ReminderExtract { content: " 喝水 ".into(), due: Some("3分钟后".into()) },
            ReminderExtract { content: "  ".into(), due: None },
        ],
        now(),
    );
    assert_eq!(rows.len(), 1);
    assert_eq!(rows[0].content, "喝水");
    assert_eq!(rows[0].due_at.as_deref(), Some("2024-05-15 10:23:00"));
    assert!(!rows[0].needs_time);
}

#[test]
fn extraction_rows() {
    let ext = MemoryExtraction {
        people: vec![
            PersonExtract { name: " 张伟 ".into(), relation: "同事 ".into(), note: "".into() },
            PersonExtract { name: " ".into(), relation: "x".into(), note: "".into() },
        ],
        reminders: vec![],
        preferences: vec![PreferenceExtract { topic: "".into(), value: "v".into() }],
        episode: Some(EpisodeExtract { summary: " 开会 ".into(), people: vec![], place: None }),
    };
    let rows = plan_extraction_rows(&ext);
    assert_eq!(rows.people, vec![("张伟".to_string(), "同事".to_string(), String::new())]);
    assert!(rows.preferences.is_empty());
    assert_eq!(rows.episode, Some(("开会".to_string(), String::new())));
}

fn row(id: i64, due: Option<&str>, status: &str) -> ReminderRow {
    ReminderRow { id, content: "提醒我喝水".into(), due_at: due.map(|s| s.to_string()), status: status.into(), needs_time: false, conversation_id: 1 }
}

#[test]
fn notifications_and_messages() {
    let rows = vec![
        row(1, Some("2024-05-15 10:30:00"), "pending"),
        row(2, Some("2024-05-15 10:40:00"), "pending"),
        row(3, Some("2024-05-15 10:00:00"), "done"),
        row(4, Some("明天"), "pending"),
        row(5, None, "pending"),
    ];
    let due = due_reminders_for_notification(&rows, now());
    assert_eq!(due.iter().map(|r| r.id).collect::<Vec<_>>(), vec![1]);
    assert_eq!(reminders_to_notify(&rows, now()).map(|v| v.len()), Some(1));
    assert_eq!(friendly_due("2024-05-15 18:00:00", now()), "18:00");
    assert_eq!(friendly_due("2024-05-16 08:00:00", now()), "明天08:00");
    assert_eq!(friendly_due("2024-07-01 08:00:00", now()), "07月01日 08:00");
    assert_eq!(friendly_due("改天", now()), "改天");
    assert_eq!(overdue_message(&rows[0], now()), "补发提醒：喝水，原定10:30");
    assert_eq!(overdue_message(&rows[4], now()), "补发提醒：喝水，原定");
    assert_eq!(due_message("提醒我喝水"), "到时间了，该喝水了");
}

#[test]
fn urls_and_launching() {
    assert_eq!(validate_url(" baidu.com "), Ok("https://baidu.com".to_string()));
    assert_eq!(validate_url("http://a.b/c"), Ok("http://a.b/c".to_string()));
    assert_eq!(validate_url(""), Err("地址格式不正确".to_string()));
    assert_eq!(validate_url("localhost"), Err("不支持打开这个地址".to_string()));
    assert_eq!(urlencode("a b-天"), "a%20b-%E5%A4%A9");
    assert_eq!(search("天气"), Ok("https://www.bing.com/search?q=%E5%A4%A9%E6%B0%94".to_string()));
    assert_eq!(launch_plan("https://x.cn"), LaunchPlan::OpenUrl("https://x.cn".into()));
    assert_eq!(launch_plan("Microsoft.WindowsCalculator_8wekyb3d8bbwe!App"), LaunchPlan::ShellApp("shell:AppsFolder\\Microsoft.WindowsCalculator_8wekyb3d8bbwe!App".into()));
    assert_eq!(launch_plan("calc.exe"), LaunchPlan::Spawn("calc.exe".into()));
}

#[test]
fn checked_addresses_are_web_and_stable() {
    for input in [" baidu.com ", "http://a.b/c", "https://x.cn/q?a=1"] {
        let u = validate_url(input).unwrap();
        assert!(u.starts_with("http://") || u.starts_with("https://"));
        assert!(u.contains('.'));
        assert_eq!(validate_url(&u), Ok(u.clone()));
    }
    assert_eq!(validate_url("ftp://a.b"), Ok("https://ftp://a.b".to_string()));
    assert!(urlencode("天气 a/b?").is_ascii());
}

#[test]
fn blank_reminders_are_skipped_before_their_time_is_read() {
    let rows = plan_reminder_rows(
        &vec![
            ReminderExtract { content: "  ".into(), due: Some("99999999999999999分钟后".into()) },
            ReminderExtract { content: "喝水".into(), due: None },
        ],
        now(),
    );
    assert_eq!(rows.len(), 1);
    assert_eq!(rows[0].content, "喝水");
    assert!(rows[0].needs_time);
}
