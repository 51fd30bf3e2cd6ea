//! Spoken system commands: what a transcript asks the assistant to do.
use crate::text::{
    contains_any, contains_char, contains_str, digits_of, digits_value, digits_value_upto,
    digits_vec, has_any, has_prefix, has_sub, lemma_digits_of_all_digits, split_once,
    split_once_str, starts_with_str, string_of, strip_prefix, strip_prefix_str, subvec, trim,
    trim_start_matches, trim_start_matches_str, trim_vec, trimmed_chars,
};
use crate::db::conversations::ConversationRow;
use crate::db::memories::PersonRow;
use crate::db::reminders::ReminderRow;
use crate::text::{append_chars, append_str, chars_of, decimal, join_chars, joined, str_eq, u64_decimal};
use vstd::prelude::*;

verus! {

#[derive(Debug, Clone, Copy, PartialEq, Eq, Structural)]
pub enum DeviceTarget {
    Internal,
    Headset,
}

/// A command recognised in a transcript. `Volume` carries hundredths of
/// full scale: `10` and `-10` for "louder" and "quieter", `0..=100` for a
/// level that was said.
#[derive(Debug, Clone, PartialEq, Eq)]
pub enum SystemCommand {
    ListHistory,
    ListReminders,
    ListPeople,
    Status,
    SwitchDevice(DeviceTarget),
    LaunchApp(String),
    LaunchWith(String, String),
    Search(String),
    OpenUrl(String),
    Volume(i32),
    Mute(bool),
    PlayMusic,
    MediaPlayPause,
    MediaNext,
    MediaPrev,
    NoCommand,
}

/// A command with its texts taken as character sequences.
pub enum CommandView {
    ListHistory,
    ListReminders,
    ListPeople,
    Status,
    SwitchDevice(DeviceTarget),
    LaunchApp(Seq<char>),
    LaunchWith(Seq<char>, Seq<char>),
    Search(Seq<char>),
    OpenUrl(Seq<char>),
    Volume(int),
    Mute(bool),
    PlayMusic,
    MediaPlayPause,
    MediaNext,
    MediaPrev,
    NoCommand,
}

impl View for SystemCommand {
    type V = CommandView;

    open spec fn view(&self) -> CommandView {
        match self {
            SystemCommand::ListHistory => CommandView::ListHistory,
            SystemCommand::ListReminders => CommandView::ListReminders,
            SystemCommand::ListPeople => CommandView::ListPeople,
            SystemCommand::Status => CommandView::Status,
            SystemCommand::SwitchDevice(d) => CommandView::SwitchDevice(*d),
            SystemCommand::LaunchApp(a) => CommandView::LaunchApp(a@),
            SystemCommand::LaunchWith(a, b) => CommandView::LaunchWith(a@, b@),
            SystemCommand::Search(q) => CommandView::Search(q@),
            SystemCommand::OpenUrl(u) => CommandView::OpenUrl(u@),
            SystemCommand::Volume(n) => CommandView::Volume(*n as int),
            SystemCommand::Mute(m) => CommandView::Mute(*m),
            SystemCommand::PlayMusic => CommandView::PlayMusic,
            SystemCommand::MediaPlayPause => CommandView::MediaPlayPause,
            SystemCommand::MediaNext => CommandView::MediaNext,
            SystemCommand::MediaPrev => CommandView::MediaPrev,
            SystemCommand::NoCommand => CommandView::NoCommand,
        }
    }
}

impl SystemCommand {
    /// Whether this is a command at all.
    pub fn is_no_command(&self) -> (res: bool)
        ensures
            res == (self@ is NoCommand),
    {
        match self {
            SystemCommand::NoCommand => true,
            _ => false,
        }
    }
}

/// The launch verbs that `strip_verb` removes, in the order it tries them.
pub open spec fn launch_verbs() -> Seq<&'static str> {
    seq!["打开", "启动", "开启", "运行", "帮我打开", "请打开"]
}

/// `t` without the first launch verb, from `i` on, that leaves a non-empty
/// rest after trimming; `t` itself when none does.
pub open spec fn strip_verb_from(t: Seq<char>, verbs: Seq<&str>, i: int) -> Seq<char>
    decreases verbs.len() - i,
{
    if i < 0 || i >= verbs.len() {
        t
    } else {
        match strip_prefix(t, verbs[i]@) {
            Some(rest) => if trim(rest).len() > 0 {
                trim(rest)
            } else {
                strip_verb_from(t, verbs, i + 1)
            },
            None => strip_verb_from(t, verbs, i + 1),
        }
    }
}

pub open spec fn stripped_verb(t: Seq<char>) -> Seq<char> {
    strip_verb_from(t, launch_verbs(), 0)
}

fn strip_verb(t: &Vec<char>) -> (res: Vec<char>)
    ensures
        res@ == stripped_verb(t@),
{
    let verbs = ["打开", "启动", "开启", "运行", "帮我打开", "请打开"];
    assert(verbs@ =~= launch_verbs());
    let mut i: usize = 0;
    while i < 6
        invariant
            i <= 6,
            verbs@ == launch_verbs(),
            stripped_verb(t@) == strip_verb_from(t@, verbs@, i as int),
        decreases 6 - i,
    {
        match strip_prefix_str(t, verbs[i]) {
            Some(rest) => {
                let r = trim_vec(&rest);
                if r.len() > 0 {
                    return r;
                }
            },
            None => {},
        }
        i = i + 1;
    }
    subvec(t, 0, t.len())
}

/// The volume level said in `t`: its ASCII digits read as a number, when
/// there are digits and the number is at most 100.
pub open spec fn volume_number(t: Seq<char>) -> Option<int> {
    let d = digits_of(t);
    if d.len() > 0 && digits_value(d) <= 100 {
        Some(digits_value(d) as int)
    } else {
        None
    }
}

fn extract_volume_number(t: &Vec<char>) -> (res: Option<i32>)
    ensures
        match res {
            Some(n) => volume_number(t@) == Some(n as int),
            None => volume_number(t@) is None,
        },
{
    let d = digits_vec(t);
    proof {
        lemma_digits_of_all_digits(t@);
    }
    match digits_value_upto(&d, 100) {
        Some(n) => Some(n as i32),
        None => None,
    }
}

/// The side of the first `sep` in `t` before it, and after it.
pub open spec fn launch_with_parts(t: Seq<char>) -> (Seq<char>, Seq<char>) {
    match split_once(t, "打开"@) {
        Some(p) => p,
        None => match split_once(t, "开启"@) {
            Some(p) => p,
            None => (Seq::empty(), Seq::empty()),
        },
    }
}

/// Whether `t` looks like an address to open: it names a launch verb and,
/// without the verb, holds a '.' but neither a space nor a full-width colon.
pub open spec fn looks_like_url(t: Seq<char>) -> bool {
    let u = stripped_verb(t);
    has_any(t, seq!["打开", "启动", "开启"]) && u.contains('.') && !u.contains(' ') && !u.contains(
        '：',
    )
}

/// The launch verbs, bare or after "帮我" or "请".
pub open spec fn launch_prefixes() -> Seq<&'static str> {
    seq![
        "打开",
        "启动",
        "开启",
        "运行",
        "帮我打开",
        "帮我启动",
        "帮我开启",
        "帮我运行",
        "请打开",
        "请启动",
        "请开启",
        "请运行",
    ]
}

/// Whether `t` begins with a launch verb, bare or after "帮我" or "请".
pub open spec fn starts_with_launch(t: Seq<char>) -> bool {
    exists|i: int| 0 <= i < 12 && has_prefix(t, (#[trigger] launch_prefixes()[i])@)
}

/// The command that a transcript asks for; the first matching rule wins.
pub open spec fn command_of(text: Seq<char>) -> CommandView {
    let t = trim(text);
    if has_any(t, seq!["查看历史", "最近记录", "最近说了什么", "查看记录", "看历史"]) {
        CommandView::ListHistory
    } else if has_any(t, seq!["查看承诺", "提醒列表", "有什么提醒", "查看提醒", "待办"]) {
        CommandView::ListReminders
    } else if has_any(t, seq!["查看人脉", "认识谁", "看人脉", "人脉列表"]) {
        CommandView::ListPeople
    } else if has_any(t, seq!["助手状态", "模型状态", "设备状态", "工作状态"]) {
        CommandView::Status
    } else if has_any(t, seq!["内置麦克风", "用内置"]) {
        CommandView::SwitchDevice(DeviceTarget::Internal)
    } else if has_any(t, seq!["用耳机", "换耳机", "用蓝牙"]) {
        CommandView::SwitchDevice(DeviceTarget::Headset)
    } else if has_sub(t, "用"@) && (has_sub(t, "打开"@) || has_sub(t, "开启"@)) {
        let (app_part, target) = launch_with_parts(t);
        let app = trim(trim_start_matches(app_part, "用"@));
        let target = trim(target);
        if app.len() > 0 && target.len() > 0 {
            CommandView::LaunchWith(app, target)
        } else {
            CommandView::NoCommand
        }
    } else if has_prefix(t, "搜索"@) || has_prefix(t, "查一下"@) || has_prefix(t, "帮我搜"@) {
        let q = trim(
            trim_start_matches(
                trim_start_matches(trim_start_matches(stripped_verb(t), "搜索"@), "查一下"@),
                "帮我搜"@,
            ),
        );
        if q.len() > 0 {
            CommandView::Search(q)
        } else {
            CommandView::NoCommand
        }
    } else if has_sub(t, "静音"@) {
        CommandView::Mute(true)
    } else if has_any(t, seq!["取消静音", "恢复声音", "解除静音"]) {
        CommandView::Mute(false)
    } else if has_sub(t, "下一首"@) {
        CommandView::MediaNext
    } else if has_sub(t, "上一首"@) {
        CommandView::MediaPrev
    } else if has_any(
        t,
        seq!["来点音乐", "播放音乐", "放音乐", "放歌", "放首", "放点", "来首", "听歌"],
    ) {
        CommandView::PlayMusic
    } else if has_any(t, seq!["播放", "暂停", "继续"]) {
        CommandView::MediaPlayPause
    } else if has_sub(t, "音量"@) {
        if has_any(t, seq!["调高", "大点"]) {
            CommandView::Volume(10)
        } else if has_any(t, seq!["调低", "小点"]) {
            CommandView::Volume(-10)
        } else {
            match volume_number(t) {
                Some(n) => CommandView::Volume(n),
                None => CommandView::NoCommand,
            }
        }
    } else if has_sub(t, "网址"@) || looks_like_url(t) {
        let url = trim(trim_start_matches(trim_start_matches(stripped_verb(t), "网址"@), "网站"@));
        if url.len() > 0 {
            CommandView::OpenUrl(url)
        } else {
            CommandView::NoCommand
        }
    } else if starts_with_launch(t) {
        let name = stripped_verb(t);
        if name.len() > 0 {
            CommandView::LaunchApp(name)
        } else {
            CommandView::NoCommand
        }
    } else {
        CommandView::NoCommand
    }
}

fn starts_with_any(t: &Vec<char>, keys: &[&str]) -> (res: bool)
    ensures
        res == exists|i: int| 0 <= i < keys@.len() && has_prefix(t@, (#[trigger] keys@[i])@),
{
    let mut i: usize = 0;
    while i < keys.len()
        invariant
            i <= keys.len(),
            forall|j: int| 0 <= j < i ==> !has_prefix(t@, (#[trigger] keys@[j])@),
        decreases keys.len() - i,
    {
        if starts_with_str(t, keys[i]) {
            return true;
        }
        i = i + 1;
    }
    false
}

pub fn parse_system_command(text: &str) -> (res: SystemCommand)
    ensures
        res@ == command_of(text@),
{
    let t = trimmed_chars(text);
    let history = ["查看历史", "最近记录", "最近说了什么", "查看记录", "看历史"];
    let reminders = ["查看承诺", "提醒列表", "有什么提醒", "查看提醒", "待办"];
    let people = ["查看人脉", "认识谁", "看人脉", "人脉列表"];
    let status = ["助手状态", "模型状态", "设备状态", "工作状态"];
    let internal = ["内置麦克风", "用内置"];
    let headset = ["用耳机", "换耳机", "用蓝牙"];
    let unmute = ["取消静音", "恢复声音", "解除静音"];
    let music = ["来点音乐", "播放音乐", "放音乐", "放歌", "放首", "放点", "来首", "听歌"];
    let media = ["播放", "暂停", "继续"];
    let up = ["调高", "大点"];
    let down = ["调低", "小点"];
    let verbs = ["打开", "启动", "开启"];
    let launch = [
        "打开",
        "启动",
        "开启",
        "运行",
        "帮我打开",
        "帮我启动",
        "帮我开启",
        "帮我运行",
        "请打开",
        "请启动",
        "请开启",
        "请运行",
    ];
    assert(history@ =~= seq!["查看历史", "最近记录", "最近说了什么", "查看记录", "看历史"]);
    assert(reminders@ =~= seq!["查看承诺", "提醒列表", "有什么提醒", "查看提醒", "待办"]);
    assert(people@ =~= seq!["查看人脉", "认识谁", "看人脉", "人脉列表"]);
    assert(status@ =~= seq!["助手状态", "模型状态", "设备状态", "工作状态"]);
    assert(internal@ =~= seq!["内置麦克风", "用内置"]);
    assert(headset@ =~= seq!["用耳机", "换耳机", "用蓝牙"]);
    assert(unmute@ =~= seq!["取消静音", "恢复声音", "解除静音"]);
    assert(music@ =~= seq![
        "来点音乐",
        "播放音乐",
        "放音乐",
        "放歌",
        "放首",
        "放点",
        "来首",
        "听歌",
    ]);
    assert(media@ =~= seq!["播放", "暂停", "继续"]);
    assert(up@ =~= seq!["调高", "大点"]);
    assert(down@ =~= seq!["调低", "小点"]);
    assert(verbs@ =~= seq!["打开", "启动", "开启"]);
    assert(launch@ =~= launch_prefixes());
    if contains_any(&t, &history) {
        SystemCommand::ListHistory
    } else if contains_any(&t, &reminders) {
        SystemCommand::ListReminders
    } else if contains_any(&t, &people) {
        SystemCommand::ListPeople
    } else if contains_any(&t, &status) {
        SystemCommand::Status
    } else if contains_any(&t, &internal) {
        SystemCommand::SwitchDevice(DeviceTarget::Internal)
    } else if contains_any(&t, &headset) {
        SystemCommand::SwitchDevice(DeviceTarget::Headset)
    } else if contains_str(&t, "用") && (contains_str(&t, "打开") || contains_str(&t, "开启")) {
        let (app_part, target) = match split_once_str(&t, "打开") {
            Some(p) => p,
            None => match split_once_str(&t, "开启") {
                Some(p) => p,
                None => (Vec::new(), Vec::new()),
            },
        };
        assert((app_part@, target@) == launch_with_parts(t@));
        let app = trim_vec(&trim_start_matches_str(&app_part, "用"));
        let target = trim_vec(&target);
        if app.len() > 0 && target.len() > 0 {
            SystemCommand::LaunchWith(string_of(&app), string_of(&target))
        } else {
            SystemCommand::NoCommand
        }
    } else if starts_with_str(&t, "搜索") || starts_with_str(&t, "查一下") || starts_with_str(
        &t,
        "帮我搜",
    ) {
        let s0 = strip_verb(&t);
        let s1 = trim_start_matches_str(&s0, "搜索");
        let s2 = trim_start_matches_str(&s1, "查一下");
        let s3 = trim_start_matches_str(&s2, "帮我搜");
        let q = trim_vec(&s3);
        if q.len() > 0 {
            SystemCommand::Search(string_of(&q))
        } else {
            SystemCommand::NoCommand
        }
    } else if contains_str(&t, "静音") {
        SystemCommand::Mute(true)
    } else if contains_any(&t, &unmute) {
        SystemCommand::Mute(false)
    } else if contains_str(&t, "下一首") {
        SystemCommand::MediaNext
    } else if contains_str(&t, "上一首") {
        SystemCommand::MediaPrev
    } else if contains_any(&t, &music) {
        SystemCommand::PlayMusic
    } else if contains_any(&t, &media) {
        SystemCommand::MediaPlayPause
    } else if contains_str(&t, "音量") {
        if contains_any(&t, &up) {
            SystemCommand::Volume(10)
        } else if contains_any(&t, &down) {
            SystemCommand::Volume(-10)
        } else {
            match extract_volume_number(&t) {
                Some(n) => SystemCommand::Volume(n),
                None => SystemCommand::NoCommand,
            }
        }
    } else if contains_str(&t, "网址") || {
        let u = strip_verb(&t);
        contains_any(&t, &verbs) && contains_char(&u, '.') && !contains_char(&u, ' ')
            && !contains_char(&u, '：')
    } {
        let s0 = strip_verb(&t);
        let s1 = trim_start_matches_str(&s0, "网址");
        let s2 = trim_start_matches_str(&s1, "网站");
        let url = trim_vec(&s2);
        if url.len() > 0 {
            SystemCommand::OpenUrl(string_of(&url))
        } else {
            SystemCommand::NoCommand
        }
    } else if starts_with_any(&t, &launch) {
        let name = strip_verb(&t);
        if name.len() > 0 {
            SystemCommand::LaunchApp(string_of(&name))
        } else {
            SystemCommand::NoCommand
        }
    } else {
        SystemCommand::NoCommand
    }
}


/// One numbered entry of a spoken list: "N：text".
pub open spec fn numbered(i: int, text: Seq<char>) -> Seq<char> {
    decimal((i + 1) as nat) + "："@ + text
}

fn numbered_exec(i: usize, text: &Vec<char>) -> (res: Vec<char>)
    requires
        i < usize::MAX,
    ensures
        res@ == numbered(i as int, text@),
{
    let mut v = u64_decimal((i + 1) as u64);
    append_str(&mut v, "：");
    append_chars(&mut v, text);
    v
}

pub open spec fn min_len(n: int, cap: int) -> int {
    if n < cap {
        n
    } else {
        cap
    }
}

/// What a stored conversation is read out as: its summary, else its
/// transcript.
pub open spec fn conversation_text(r: ConversationRow) -> Seq<char> {
    match r.summary {
        Some(s) => s@,
        None => r.transcript@,
    }
}

/// The reply to "查看历史": the three most recent conversations.
pub open spec fn history_message(rows: Seq<ConversationRow>) -> Seq<char> {
    if rows.len() == 0 {
        "还没有任何记录"@
    } else {
        "最近记录，"@ + joined(
            Seq::new(min_len(rows.len() as int, 3) as nat, |i: int| numbered(i, conversation_text(rows[i]))),
            "。"@,
        )
    }
}

pub fn list_history(rows: &[ConversationRow]) -> (res: String)
    ensures
        res@ == history_message(rows@),
{
    if rows.len() == 0 {
        let v = chars_of("还没有任何记录");
        return string_of(&v);
    }
    let n = if rows.len() < 3 {
        rows.len()
    } else {
        3
    };
    let ghost want = Seq::new(
        min_len(rows@.len() as int, 3) as nat,
        |i: int| numbered(i, conversation_text(rows@[i])),
    );
    let mut parts: Vec<Vec<char>> = Vec::new();
    let mut i: usize = 0;
    while i < n
        invariant
            n <= rows.len(),
            n == min_len(rows@.len() as int, 3),
            i <= n,
            n <= 3,
            want == Seq::new(
                min_len(rows@.len() as int, 3) as nat,
                |i: int| numbered(i, conversation_text(rows@[i])),
            ),
            parts@.len() == i,
            forall|m: int| 0 <= m < i ==> (#[trigger] parts@[m])@ == want[m],
        decreases n - i,
    {
        let text = match &rows[i].summary {
            Some(s) => chars_of(s.as_str()),
            None => chars_of(rows[i].transcript.as_str()),
        };
        parts.push(numbered_exec(i, &text));
        i = i + 1;
    }
    assert(parts@.map_values(|p: Vec<char>| p@) =~= want);
    let body = join_chars(&parts, "。");
    let mut v = chars_of("最近记录，");
    append_chars(&mut v, &body);
    string_of(&v)
}

/// The pending reminders among `rows`, in order.
pub open spec fn pending_rows(rows: Seq<ReminderRow>) -> Seq<ReminderRow>
    decreases rows.len(),
{
    if rows.len() == 0 {
        Seq::empty()
    } else {
        let rest = pending_rows(rows.drop_last());
        if rows.last().status@ == "pending"@ {
            rest.push(rows.last())
        } else {
            rest
        }
    }
}

proof fn lemma_pending_rows_len(rows: Seq<ReminderRow>)
    ensures
        pending_rows(rows).len() <= rows.len(),
    decreases rows.len(),
{
    if rows.len() > 0 {
        lemma_pending_rows_len(rows.drop_last());
    }
}

fn pending_of(rows: &[ReminderRow]) -> (res: Vec<usize>)
    ensures
        res@.len() == pending_rows(rows@).len(),
        forall|m: int| 0 <= m < res@.len() ==> (#[trigger] res@[m]) < rows@.len() && rows@[res@[m] as int]
            == pending_rows(rows@)[m],
{
    let mut out: Vec<usize> = Vec::new();
    let mut i: usize = 0;
    while i < rows.len()
        invariant
            i <= rows.len(),
            out@.len() == pending_rows(rows@.subrange(0, i as int)).len(),
            forall|m: int| 0 <= m < out@.len() ==> (#[trigger] out@[m]) < i && rows@[out@[m] as int]
                == pending_rows(rows@.subrange(0, i as int))[m],
        decreases rows.len() - i,
    {
        assert(rows@.subrange(0, i + 1).drop_last() =~= rows@.subrange(0, i as int));
        assert(rows@.subrange(0, i + 1).last() == rows@[i as int]);
        if str_eq(rows[i].status.as_str(), "pending") {
            out.push(i);
        }
        i = i + 1;
    }
    assert(rows@.subrange(0, rows.len() as int) =~= rows@);
    out
}

/// One pending reminder as read out: "content(due)", or "时间待定" without a
/// due time.
pub open spec fn reminder_entry(r: ReminderRow) -> Seq<char> {
    r.content@ + "("@ + match r.due_at {
        Some(d) => d@,
        None => "时间待定"@,
    } + ")"@
}

/// The reply to "查看提醒": how many reminders are pending, then the first
/// five.
pub open spec fn reminders_message(rows: Seq<ReminderRow>) -> Seq<char> {
    let p = pending_rows(rows);
    if p.len() == 0 {
        "目前没有待办提醒"@
    } else {
        "你有"@ + decimal(p.len()) + "个待办，"@ + joined(
            Seq::new(min_len(p.len() as int, 5) as nat, |i: int| numbered(i, reminder_entry(p[i]))),
            "。"@,
        )
    }
}

pub fn list_reminders(rows: &[ReminderRow]) -> (res: String)
    ensures
        res@ == reminders_message(rows@),
{
    let pending = pending_of(rows);
    proof {
        lemma_pending_rows_len(rows@);
    }
    if pending.len() == 0 {
        let v = chars_of("目前没有待办提醒");
        return string_of(&v);
    }
    let ghost p = pending_rows(rows@);
    let n = if pending.len() < 5 {
        pending.len()
    } else {
        5
    };
    let ghost want = Seq::new(
        min_len(p.len() as int, 5) as nat,
        |i: int| numbered(i, reminder_entry(p[i])),
    );
    let mut parts: Vec<Vec<char>> = Vec::new();
    let mut i: usize = 0;
    while i < n
        invariant
            p == pending_rows(rows@),
            pending@.len() == p.len(),
            forall|m: int| 0 <= m < pending@.len() ==> (#[trigger] pending@[m]) < rows@.len()
                && rows@[pending@[m] as int] == p[m],
            n == min_len(p.len() as int, 5),
            n <= 5,
            i <= n,
            want == Seq::new(
                min_len(p.len() as int, 5) as nat,
                |i: int| numbered(i, reminder_entry(p[i])),
            ),
            parts@.len() == i,
            forall|m: int| 0 <= m < i ==> (#[trigger] parts@[m])@ == want[m],
        decreases n - i,
    {
        let r = &rows[pending[i]];
        let mut e = chars_of(r.content.as_str());
        append_str(&mut e, "(");
        match &r.due_at {
            Some(d) => append_str(&mut e, d.as_str()),
            None => append_str(&mut e, "时间待定"),
        }
        append_str(&mut e, ")");
        parts.push(numbered_exec(i, &e));
        i = i + 1;
    }
    assert(parts@.map_values(|p: Vec<char>| p@) =~= want);
    let body = join_chars(&parts, "。");
    let mut v = chars_of("你有");
    let count = u64_decimal(pending.len() as u64);
    append_chars(&mut v, &count);
    append_str(&mut v, "个待办，");
    append_chars(&mut v, &body);
    string_of(&v)
}

/// The number of pending reminders.
pub fn count_pending(rows: &[ReminderRow]) -> (res: usize)
    ensures
        res == pending_rows(rows@).len(),
{
    pending_of(rows).len()
}

/// One person as read out: "name（relation）".
pub open spec fn person_entry(p: PersonRow) -> Seq<char> {
    p.name@ + "（"@ + p.relation@ + "）"@
}

/// The reply to "查看人脉": how many people are known, then the first five.
pub open spec fn people_message(rows: Seq<PersonRow>) -> Seq<char> {
    if rows.len() == 0 {
        "你还没有记录过任何人脉"@
    } else {
        "你记录过"@ + decimal(rows.len()) + "个人，"@ + joined(
            Seq::new(min_len(rows.len() as int, 5) as nat, |i: int| numbered(i, person_entry(rows[i]))),
            "。"@,
        )
    }
}

pub fn list_people(rows: &[PersonRow]) -> (res: String)
    ensures
        res@ == people_message(rows@),
{
    if rows.len() == 0 {
        let v = chars_of("你还没有记录过任何人脉");
        return string_of(&v);
    }
    let n = if rows.len() < 5 {
        rows.len()
    } else {
        5
    };
    let ghost want = Seq::new(
        min_len(rows@.len() as int, 5) as nat,
        |i: int| numbered(i, person_entry(rows@[i])),
    );
    let mut parts: Vec<Vec<char>> = Vec::new();
    let mut i: usize = 0;
    while i < n
        invariant
            n <= rows.len(),
            n == min_len(rows@.len() as int, 5),
            n <= 5,
            i <= n,
            want == Seq::new(
                min_len(rows@.len() as int, 5) as nat,
                |i: int| numbered(i, person_entry(rows@[i])),
            ),
            parts@.len() == i,
            forall|m: int| 0 <= m < i ==> (#[trigger] parts@[m])@ == want[m],
        decreases n - i,
    {
        let mut e = chars_of(rows[i].name.as_str());
        append_str(&mut e, "（");
        append_str(&mut e, rows[i].relation.as_str());
        append_str(&mut e, "）");
        parts.push(numbered_exec(i, &e));
        i = i + 1;
    }
    assert(parts@.map_values(|p: Vec<char>| p@) =~= want);
    let body = join_chars(&parts, "。");
    let mut v = chars_of("你记录过");
    let count = u64_decimal(rows.len() as u64);
    append_chars(&mut v, &count);
    append_str(&mut v, "个人，");
    append_chars(&mut v, &body);
    string_of(&v)
}

/// The reply to "助手状态".
pub open spec fn status_message_spec(model_ok: bool, device: Option<Seq<char>>, pending: nat) -> Seq<
    char,
> {
    "语音助手运行正常。模型"@ + (if model_ok {
        "已加载"@
    } else {
        "未加载"@
    }) + "，当前设备"@ + match device {
        Some(d) => d,
        None => "系统默认"@,
    } + "，有"@ + decimal(pending) + "个待办提醒"@
}

pub fn status_message(model_ok: bool, device: &Option<String>, pending: usize) -> (res: String)
    ensures
        res@ == status_message_spec(
            model_ok,
            match device {
                Some(d) => Some(d@),
                None => None,
            },
            pending as nat,
        ),
{
    let mut v = chars_of("语音助手运行正常。模型");
    if model_ok {
        append_str(&mut v, "已加载");
    } else {
        append_str(&mut v, "未加载");
    }
    append_str(&mut v, "，当前设备");
    match device {
        Some(d) => append_str(&mut v, d.as_str()),
        None => append_str(&mut v, "系统默认"),
    }
    append_str(&mut v, "，有");
    let count = u64_decimal(pending as u64);
    append_chars(&mut v, &count);
    append_str(&mut v, "个待办提醒");
    string_of(&v)
}

/// The reply when a spoken application name is not in the table.
pub fn app_not_found_message(name: &str) -> (res: String)
    ensures
        res@ == "没有找到应用「"@ + name@ + "」，可在设置里配置"@,
{
    let mut v = chars_of("没有找到应用「");
    append_str(&mut v, name);
    append_str(&mut v, "」，可在设置里配置");
    string_of(&v)
}


/// A volume command steps the volume up when "调高" or "大点" is said, and
/// down when "调低" or "小点" is said without either of those.
pub proof fn law_volume_direction(text: Seq<char>)
    ensures
        command_of(text) matches CommandView::Volume(v) ==> {
            let t = trim(text);
            &&& (has_sub(t, "调高"@) || has_sub(t, "大点"@)) ==> v == 10
            &&& (has_sub(t, "调低"@) || has_sub(t, "小点"@)) && !(has_sub(t, "调高"@) || has_sub(
                t,
                "大点"@,
            )) ==> v == -10
        },
{
    let t = trim(text);
    let up = seq!["调高", "大点"];
    let down = seq!["调低", "小点"];
    if has_sub(t, "调高"@) {
        assert(has_sub(t, up[0]@));
    }
    if has_sub(t, "大点"@) {
        assert(has_sub(t, up[1]@));
    }
    if has_sub(t, "调低"@) {
        assert(has_sub(t, down[0]@));
    }
    if has_sub(t, "小点"@) {
        assert(has_sub(t, down[1]@));
    }
    if has_any(t, up) {
        let i = choose|i: int| 0 <= i < up.len() && has_sub(t, #[trigger] up[i]@);
        assert(i == 0 || i == 1);
    }
}

/// The reply to "查看人脉" names the total number of people known, however
/// many of them it reads out.
pub proof fn law_people_count_is_total(rows: Seq<PersonRow>)
    requires
        rows.len() > 0,
    ensures
        has_prefix(people_message(rows), "你记录过"@ + decimal(rows.len()) + "个人，"@),
{
    let head = "你记录过"@ + decimal(rows.len()) + "个人，"@;
    let m = people_message(rows);
    assert(m.subrange(0, head.len() as int) =~= head);
}

} // verus!
