//! The voice dialog: its states, the events that move it, and the decisions
//! that the listening loop takes at each step.
use crate::memory::extract::{clean_reminder_content, cleaned};
use crate::db::reminders::ReminderRow;
use crate::memory::types::MemoryExtraction;
use crate::text::{
    append_chars, append_str, chars_of, contains_any, has_any, joined, join_chars, string_of,
};
use crate::time::{format_datetime, formatted, succ, DateTime};
use crate::timeparse::{amount_fits, due_of, parse_due};
use crate::voice::commands::{command_of, parse_system_command, SystemCommand};
use crate::voice::wake::{contains_wake_word, wake_word_in};
use vstd::prelude::*;

verus! {

#[derive(Debug, Clone, Copy, PartialEq, Eq, Structural)]
pub enum DialogState {
    Idle,
    Active,
    Processing,
}

#[derive(Debug, Clone, Copy, PartialEq, Eq, Structural)]
pub enum DialogEvent {
    VoiceStart,
    WakeWordHit,
    SentenceEnd,
    WindowTimeout,
    ProcessedOk,
    ProcessedErr,
    MicUnavailable,
}

/// The dialog's transition table; an event that the table does not list
/// leaves the state as it is.
pub open spec fn next_state(state: DialogState, event: DialogEvent) -> DialogState {
    match (state, event) {
        (DialogState::Idle, DialogEvent::WakeWordHit) => DialogState::Active,
        (DialogState::Active, DialogEvent::SentenceEnd) => DialogState::Processing,
        (DialogState::Processing, DialogEvent::ProcessedOk) => DialogState::Active,
        (DialogState::Processing, DialogEvent::ProcessedErr) => DialogState::Active,
        (DialogState::Active, DialogEvent::WindowTimeout) => DialogState::Idle,
        (_, DialogEvent::MicUnavailable) => DialogState::Idle,
        _ => state,
    }
}

pub fn transition(state: DialogState, event: DialogEvent) -> (res: DialogState)
    ensures
        res == next_state(state, event),
{
    match (state, event) {
        (DialogState::Idle, DialogEvent::WakeWordHit) => DialogState::Active,
        (DialogState::Active, DialogEvent::SentenceEnd) => DialogState::Processing,
        (DialogState::Processing, DialogEvent::ProcessedOk) => DialogState::Active,
        (DialogState::Processing, DialogEvent::ProcessedErr) => DialogState::Active,
        (DialogState::Active, DialogEvent::WindowTimeout) => DialogState::Idle,
        (_, DialogEvent::MicUnavailable) => DialogState::Idle,
        _ => state,
    }
}

/// A microphone failure always returns the dialog to idle.
pub proof fn law_mic_unavailable_resets(s: DialogState)
    ensures
        next_state(s, DialogEvent::MicUnavailable) == DialogState::Idle,
{
}

/// Only the wake word takes the dialog out of idle.
pub proof fn law_only_wake_word_leaves_idle(e: DialogEvent)
    ensures
        next_state(DialogState::Idle, e) != DialogState::Idle ==> e == DialogEvent::WakeWordHit,
{
}

/// Processing ends only when the sentence is handled, well or badly (or
/// the microphone fails).
pub proof fn law_processing_ends_by_outcome(e: DialogEvent)
    ensures
        next_state(DialogState::Processing, e) != DialogState::Processing ==> (e
            == DialogEvent::ProcessedOk || e == DialogEvent::ProcessedErr || e
            == DialogEvent::MicUnavailable),
{
}

/// Whether the listening window, `window_ms` long, has run out after
/// `active_elapsed_ms` milliseconds of activity.
pub fn window_expired(active_elapsed_ms: u64, window_ms: u64) -> (res: bool)
    ensures
        res == (active_elapsed_ms >= window_ms),
{
    active_elapsed_ms >= window_ms
}

/// Whether a silence of `silence_ms` has reached the limit `limit_ms`.
pub fn silence_exceeded(silence_ms: u64, limit_ms: u64) -> (res: bool)
    ensures
        res == (silence_ms >= limit_ms),
{
    silence_ms >= limit_ms
}


/// The first loud frame of `loud`, from `i` on.
pub open spec fn first_loud(loud: Seq<bool>, i: int) -> Option<int>
    decreases loud.len() - i,
{
    if i < 0 || i >= loud.len() {
        None
    } else if loud[i] {
        Some(i)
    } else {
        first_loud(loud, i + 1)
    }
}

/// The last loud frame of `loud[..n]`.
pub open spec fn last_loud(loud: Seq<bool>, n: int) -> Option<int>
    decreases n,
{
    if n <= 0 || n > loud.len() {
        None
    } else if loud[n - 1] {
        Some(n - 1)
    } else {
        last_loud(loud, n - 1)
    }
}

/// The frames padded around the voiced part: fifteen on each side.
pub const VOICE_PAD_FRAMES: usize = 15;

/// The samples `[start, end)` that hold the voice: from the first loud
/// frame to the last, padded by fifteen frames on each side and kept
/// within the buffer; `None` when no frame is loud.
pub open spec fn voice_span_spec(loud: Seq<bool>, frame_len: int, buf_len: int) -> Option<(int, int)> {
    match (first_loud(loud, 0), last_loud(loud, loud.len() as int)) {
        (Some(f), Some(l)) => {
            let pad = frame_len * 15;
            let start = f * frame_len - min_i(pad, f * frame_len);
            let end = min_i((l + 1) * frame_len + pad, buf_len);
            Some((start, end))
        },
        _ => None,
    }
}

pub open spec fn min_i(a: int, b: int) -> int {
    if a < b {
        a
    } else {
        b
    }
}

proof fn lemma_first_loud_is(loud: Seq<bool>, i: int, f: int)
    requires
        0 <= i <= f < loud.len(),
        loud[f],
        forall|j: int| i <= j < f ==> !loud[j],
    ensures
        first_loud(loud, i) == Some(f),
    decreases f - i,
{
    if i < f {
        lemma_first_loud_is(loud, i + 1, f);
    }
}

proof fn lemma_first_loud_none(loud: Seq<bool>, i: int)
    requires
        0 <= i,
        forall|j: int| i <= j < loud.len() ==> !loud[j],
    ensures
        first_loud(loud, i) is None,
    decreases loud.len() - i,
{
    if i < loud.len() {
        lemma_first_loud_none(loud, i + 1);
    }
}

proof fn lemma_last_loud_is(loud: Seq<bool>, n: int, l: int)
    requires
        0 <= l < n <= loud.len(),
        loud[l],
        forall|j: int| l < j < n ==> !loud[j],
    ensures
        last_loud(loud, n) == Some(l),
    decreases n - l,
{
    if l < n - 1 {
        lemma_last_loud_is(loud, n - 1, l);
    }
}

proof fn lemma_last_loud_none(loud: Seq<bool>, n: int)
    requires
        0 <= n <= loud.len(),
        forall|j: int| 0 <= j < n ==> !loud[j],
    ensures
        last_loud(loud, n) is None,
    decreases n,
{
    if n > 0 {
        lemma_last_loud_none(loud, n - 1);
    }
}

/// The voiced part of a buffer of `buf_len` samples cut in frames of
/// `frame_len`, whose loudness is `loud`.
pub fn voice_span(loud: &[bool], frame_len: usize, buf_len: usize) -> (res: Option<(usize, usize)>)
    requires
        frame_len >= 1,
        loud@.len() * frame_len <= buf_len,
        buf_len + 15 * frame_len <= usize::MAX,
    ensures
        match res {
            Some((a, b)) => voice_span_spec(loud@, frame_len as int, buf_len as int) == Some(
                (a as int, b as int),
            ),
            None => voice_span_spec(loud@, frame_len as int, buf_len as int) is None,
        },
{
    let mut first: Option<usize> = None;
    let mut last: Option<usize> = None;
    let mut i: usize = 0;
    while i < loud.len()
        invariant
            i <= loud.len(),
            first is None ==> last is None,
            first is Some ==> last is Some,
            first is None ==> forall|j: int| 0 <= j < i ==> !loud@[j],
            first matches Some(f) ==> f < i && loud@[f as int] && forall|j: int|
                0 <= j < f ==> !loud@[j],
            last matches Some(l) ==> l < i && loud@[l as int] && forall|j: int|
                l < j < i ==> !loud@[j],
            last matches Some(l) ==> first matches Some(f) && f <= l,
        decreases loud.len() - i,
    {
        if loud[i] {
            if first.is_none() {
                first = Some(i);
            }
            last = Some(i);
        }
        i = i + 1;
    }
    match first {
        Some(f) => {
            let l = match last {
                Some(l) => l,
                None => f,
            };
            proof {
                lemma_first_loud_is(loud@, 0, f as int);
                lemma_last_loud_is(loud@, loud@.len() as int, l as int);
            }
            let ghost n = loud@.len();
            assert((l + 1) * frame_len <= n * frame_len) by (nonlinear_arith)
                requires
                    l < n,
            ;
            assert(f * frame_len <= l * frame_len + frame_len) by (nonlinear_arith)
                requires
                    f <= l,
            ;
            assert((l + 1) * frame_len == l * frame_len + frame_len) by (nonlinear_arith);
            let pad = frame_len * 15;
            let ff = f * frame_len;
            let start = ff - if pad < ff {
                pad
            } else {
                ff
            };
            let hi = (l + 1) * frame_len + pad;
            let end = if hi < buf_len {
                hi
            } else {
                buf_len
            };
            Some((start, end))
        },
        None => {
            proof {
                lemma_first_loud_none(loud@, 0);
                lemma_last_loud_none(loud@, loud@.len() as int);
            }
            None
        },
    }
}

/// What handling a transcript came to.
#[derive(Debug, Clone, PartialEq, Eq)]
pub enum TranscriptOutcome {
    Recorded(String),
    Answered(String),
    NeedsTime(i64, String),
}

/// How the user answered a reminder that just went off.
#[derive(Debug, Clone, Copy, PartialEq, Eq, Structural)]
pub enum ReminderResponse {
    Done,
    Deferred(DateTime),
    Unknown,
}

pub open spec fn done_keys() -> Seq<&'static str> {
    seq!["完成", "好了", "行了", "知道了", "可以了", "收到", "搞定"]
}

pub open spec fn defer_keys() -> Seq<&'static str> {
    seq!["延后", "再等", "晚点", "过一会", "过会儿", "稍后", "推迟"]
}

/// Whether answering a reminder with `text` reads a due time from it.
pub open spec fn response_parses_due(text: Seq<char>) -> bool {
    !has_any(text, done_keys()) && has_any(text, defer_keys())
}

/// The answer to a reminder: done when a done word is said; deferred to the
/// time said when a defer word is said and a time is understood; otherwise
/// not understood.
pub open spec fn response_of(text: Seq<char>, now: DateTime) -> ReminderResponse {
    if has_any(text, done_keys()) {
        ReminderResponse::Done
    } else if has_any(text, defer_keys()) && due_of(text, now) is Some {
        ReminderResponse::Deferred(due_of(text, now)->0)
    } else {
        ReminderResponse::Unknown
    }
}

/// How a reminder that went off is answered: a done word (完成, 好了, 行了,
/// 知道了, 可以了, 收到, 搞定) completes it; otherwise a defer word (延后,
/// 再等, 晚点, 过一会, 过会儿, 稍后, 推迟) with a time that is understood
/// defers it to that time; anything else is not understood.
pub proof fn law_reminder_answers(text: Seq<char>, now: DateTime)
    ensures
        has_any(text, seq!["完成", "好了", "行了", "知道了", "可以了", "收到", "搞定"])
            ==> response_of(text, now) == ReminderResponse::Done,
        !has_any(text, seq!["完成", "好了", "行了", "知道了", "可以了", "收到", "搞定"])
            && has_any(text, seq!["延后", "再等", "晚点", "过一会", "过会儿", "稍后", "推迟"])
            && due_of(text, now) is Some ==> response_of(text, now) == ReminderResponse::Deferred(
            due_of(text, now)->0,
        ),
        !has_any(text, seq!["完成", "好了", "行了", "知道了", "可以了", "收到", "搞定"])
            && !has_any(text, seq!["延后", "再等", "晚点", "过一会", "过会儿", "稍后", "推迟"])
            ==> response_of(text, now) == ReminderResponse::Unknown,
{
    assert(done_keys() =~= seq!["完成", "好了", "行了", "知道了", "可以了", "收到", "搞定"]);
    assert(defer_keys() =~= seq!["延后", "再等", "晚点", "过一会", "过会儿", "稍后", "推迟"]);
}

pub fn handle_reminder_response(text: &str, now: DateTime) -> (res: ReminderResponse)
    requires
        now.wf(),
        response_parses_due(text@) ==> amount_fits(text@),
    ensures
        res == response_of(text@, now),
        res matches ReminderResponse::Deferred(d) ==> d.wf(),
{
    let t = chars_of(text);
    let done = ["完成", "好了", "行了", "知道了", "可以了", "收到", "搞定"];
    let defer = ["延后", "再等", "晚点", "过一会", "过会儿", "稍后", "推迟"];
    assert(done@ =~= done_keys());
    assert(defer@ =~= defer_keys());
    if contains_any(&t, &done) {
        return ReminderResponse::Done;
    }
    if contains_any(&t, &defer) {
        if let Some(dt) = parse_due(text, now) {
            return ReminderResponse::Deferred(dt);
        }
    }
    ReminderResponse::Unknown
}

/// "今天", "明天" or the month and day, then the hour and minute.
pub open spec fn friendly_time_spec(dt: DateTime, now: DateTime) -> Seq<char> {
    let day = if dt.date == now.date {
        "今天"@
    } else if succ(now.date) == Some(dt.date) {
        "明天"@
    } else {
        formatted(dt, "%m月%d日"@)
    };
    day + formatted(dt, "%H:%M"@)
}

pub fn friendly_time(dt: DateTime, now: DateTime) -> (res: String)
    requires
        dt.wf(),
        now.wf(),
    ensures
        res@ == friendly_time_spec(dt, now),
{
    let mut v: Vec<char> = if dt.date == now.date {
        chars_of("今天")
    } else {
        let tomorrow = crate::time::next_day(now.date);
        if tomorrow == Some(dt.date) {
            chars_of("明天")
        } else {
            let f = format_datetime(dt, "%m月%d日");
            chars_of(f.as_str())
        }
    };
    let hm = format_datetime(dt, "%H:%M");
    append_str(&mut v, hm.as_str());
    string_of(&v)
}

/// The pieces of a record message: reminders, people, preferences, then the
/// episode.
pub open spec fn record_parts(ext: MemoryExtraction) -> Seq<Seq<char>> {
    ext.reminders@.map_values(|r: crate::memory::types::ReminderExtract| "提醒："@ + r.content@)
        + ext.people@.map_values(
        |p: crate::memory::types::PersonExtract|
            "人脉："@ + p.name@ + "（"@ + p.relation@ + "）"@,
    ) + ext.preferences@.map_values(
        |p: crate::memory::types::PreferenceExtract| "偏好："@ + p.topic@ + "："@ + p.value@,
    ) + match ext.episode {
        Some(e) => seq!["事件："@ + e.summary@],
        None => Seq::empty(),
    }
}

/// "已记录：" and the pieces joined by "；".
pub open spec fn record_message(ext: MemoryExtraction) -> Seq<char> {
    "已记录："@ + joined(record_parts(ext), "；"@)
}

pub fn build_record_message(ext: &MemoryExtraction) -> (res: String)
    ensures
        res@ == record_message(*ext),
{
    let ghost want = record_parts(*ext);
    let ghost n1 = ext.reminders@.len() as int;
    let ghost n2 = n1 + ext.people@.len();
    let ghost n3 = n2 + ext.preferences@.len();
    let mut parts: Vec<Vec<char>> = Vec::new();
    let mut i: usize = 0;
    while i < ext.reminders.len()
        invariant
            i <= ext.reminders.len(),
            want == record_parts(*ext),
            n1 == ext.reminders@.len(),
            parts@.len() == i,
            forall|m: int| 0 <= m < i ==> (#[trigger] parts@[m])@ == want[m],
        decreases ext.reminders.len() - i,
    {
        let mut v = chars_of("提醒：");
        append_str(&mut v, ext.reminders[i].content.as_str());
        parts.push(v);
        i = i + 1;
    }
    let mut j: usize = 0;
    while j < ext.people.len()
        invariant
            j <= ext.people.len(),
            want == record_parts(*ext),
            n1 == ext.reminders@.len(),
            n2 == n1 + ext.people@.len(),
            parts@.len() == n1 + j,
            forall|m: int| 0 <= m < n1 + j ==> (#[trigger] parts@[m])@ == want[m],
        decreases ext.people.len() - j,
    {
        let mut v = chars_of("人脉：");
        append_str(&mut v, ext.people[j].name.as_str());
        append_str(&mut v, "（");
        append_str(&mut v, ext.people[j].relation.as_str());
        append_str(&mut v, "）");
        parts.push(v);
        j = j + 1;
    }
    let mut k: usize = 0;
    while k < ext.preferences.len()
        invariant
            k <= ext.preferences.len(),
            want == record_parts(*ext),
            n1 == ext.reminders@.len(),
            n2 == n1 + ext.people@.len(),
            n3 == n2 + ext.preferences@.len(),
            parts@.len() == n2 + k,
            forall|m: int| 0 <= m < n2 + k ==> (#[trigger] parts@[m])@ == want[m],
        decreases ext.preferences.len() - k,
    {
        let mut v = chars_of("偏好：");
        append_str(&mut v, ext.preferences[k].topic.as_str());
        append_str(&mut v, "：");
        append_str(&mut v, ext.preferences[k].value.as_str());
        parts.push(v);
        k = k + 1;
    }
    match &ext.episode {
        Some(e) => {
            let mut v = chars_of("事件：");
            append_str(&mut v, e.summary.as_str());
            parts.push(v);
        },
        None => {},
    }
    assert(parts@.map_values(|p: Vec<char>| p@) =~= want);
    let body = join_chars(&parts, "；");
    let mut msg = chars_of("已记录：");
    append_chars(&mut msg, &body);
    string_of(&msg)
}

/// The first of the stored reminders that still needs a time, from `i` on.
pub open spec fn first_needing_time(rows: Seq<Option<ReminderRow>>, i: int) -> Option<(i64, Seq<char>)>
    decreases rows.len() - i,
{
    if i < 0 || i >= rows.len() {
        None
    } else {
        match rows[i] {
            Some(r) if r.needs_time => Some((r.id, r.content@)),
            _ => first_needing_time(rows, i + 1),
        }
    }
}

/// The reminder to ask a time for, among those just stored (read back, or
/// `None` where reading failed): the first that needs one.
pub fn reminder_needing_time(rows: &[Option<ReminderRow>]) -> (res: Option<(i64, String)>)
    ensures
        match res {
            Some((id, c)) => first_needing_time(rows@, 0) == Some((id, c@)),
            None => first_needing_time(rows@, 0) is None,
        },
{
    let mut i: usize = 0;
    while i < rows.len()
        invariant
            i <= rows.len(),
            first_needing_time(rows@, 0) == first_needing_time(rows@, i as int),
        decreases rows.len() - i,
    {
        if let Some(r) = &rows[i] {
            if r.needs_time {
                return Some((r.id, r.content.clone()));
            }
        }
        i = i + 1;
    }
    None
}

/// What follows once a transcript is stored and its memories extracted.
#[derive(Debug, Clone, PartialEq, Eq)]
pub enum TranscriptStep {
    /// Ask for the time of this stored reminder (its id and text).
    AskTime(i64, String),
    /// Report the memories as recorded, with this message.
    Record(String),
    /// Answer the transcript as a question.
    Answer,
}

/// Whether the reminders of an extraction are stored first: when the
/// extraction succeeded and found any.
pub fn stores_reminders(ext: &Option<MemoryExtraction>) -> (res: bool)
    ensures
        res == (ext matches Some(e) && e.reminders@.len() > 0),
{
    match ext {
        Some(e) => e.reminders.len() > 0,
        None => false,
    }
}

/// The step after a transcript, given its extraction (`None` when that
/// failed) and the reminders just stored from it, read back. A failed
/// extraction is answered as a question. Otherwise a stored reminder that
/// still needs a time is asked about first; failing that, a transcript
/// with memory content is recorded, and one without is answered. The
/// second result says whether the people, preferences and episode are
/// stored: when there are any, unless a time is asked for.
pub fn transcript_step(ext: &Option<MemoryExtraction>, saved: &[Option<ReminderRow>]) -> (res: (
    TranscriptStep,
    bool,
))
    ensures
        ext is None ==> res.0 == TranscriptStep::Answer && !res.1,
        ext matches Some(e) ==> {
            &&& match first_needing_time(saved@, 0) {
                Some((id, c)) => res.0 matches TranscriptStep::AskTime(i, t) && i == id && t@ == c,
                None => if e.has_content_spec() {
                    res.0 matches TranscriptStep::Record(m) && m@ == record_message(*e)
                } else {
                    res.0 == TranscriptStep::Answer
                },
            }
            &&& res.1 == ((e.people@.len() > 0 || e.preferences@.len() > 0 || e.episode is Some)
                && first_needing_time(saved@, 0) is None)
        },
{
    match ext {
        None => (TranscriptStep::Answer, false),
        Some(e) => match reminder_needing_time(saved) {
            Some((id, c)) => (TranscriptStep::AskTime(id, c), false),
            None => {
                let store = e.has_memories();
                if e.has_content() {
                    (TranscriptStep::Record(build_record_message(e)), store)
                } else {
                    (TranscriptStep::Answer, store)
                }
            },
        },
    }
}

/// A reminder that waits for a spoken time: its id, its text, and how many
/// times the user has been asked again.
#[derive(Debug, Clone, PartialEq, Eq)]
pub struct PendingTime {
    pub id: i64,
    pub content: String,
    pub attempts: u32,
}

/// Where a finished sentence goes.
#[derive(Debug, Clone, PartialEq, Eq)]
pub enum SentenceRoute {
    /// The reminder `rid` is done: mark it so, forget it, say `reply`.
    ReminderDone { rid: i64, reply: String },
    /// The reminder `rid` moves to `due`: when that is stored, forget the
    /// reminder and say `reply`.
    ReminderDeferred { rid: i64, due: String, reply: String },
    /// Say `reply`.
    Say(String),
    /// The reminder `id` gets the time `due`: when that is stored, say
    /// `reply`.
    SetDue { id: i64, due: String, reply: String },
    /// Carry out a system command and say what it reports.
    System(SystemCommand),
    /// Record the transcript, or answer it; then call `after_transcript`.
    Transcript(String),
    /// Report `reply` as an error.
    Failed(String),
}

/// What to tell the user.
#[derive(Debug, Clone, PartialEq, Eq)]
pub enum Reply {
    Deliver(String),
    NotifyError(String),
}

/// The spoken reply on a wake word.
pub open spec fn wake_reply() -> Seq<char> {
    "在呢，请说"@
}

/// The silence, in milliseconds, that ends a sentence.
pub const SENTENCE_SILENCE_MS: u64 = 1500;

/// The least pause, in milliseconds, between two wake-word checks.
pub const WAKE_CHECK_INTERVAL_MS: u64 = 2000;

/// The shortest burst, in milliseconds, that is checked for the wake word.
pub const MIN_BURST_MS: u64 = 300;

/// The dialog loop's own state between two audio steps.
#[derive(Debug, Clone, PartialEq, Eq)]
pub struct DialogLoop {
    pub state: DialogState,
    pub was_speaking: bool,
    pub active_start_ms: u64,
    pub silence_since_ms: u64,
    pub last_wake_check_ms: Option<u64>,
    pub pending_time: Option<PendingTime>,
}

/// What the loop observed in one step of audio.
#[derive(Debug, Clone, Copy, PartialEq, Eq, Structural)]
pub struct TickInput {
    /// The loop's clock, in milliseconds.
    pub now_ms: u64,
    /// Speech is playing: the microphone is not listened to.
    pub tts_playing: bool,
    /// The voice-activity detector hears speech.
    pub speaking: bool,
    /// A reminder that went off waits for an answer.
    pub reminder_pending: bool,
    /// The buffered audio holds samples.
    pub buf_nonempty: bool,
    /// The buffered audio is loud enough to be speech.
    pub buf_loud: bool,
    /// The length of the buffered audio, in milliseconds.
    pub buf_ms: u64,
    /// The buffered audio is longer than five seconds.
    pub buf_over_5s: bool,
    /// The listening window, in milliseconds.
    pub window_ms: u64,
}

/// What the loop does after one step of audio.
#[derive(Debug, Clone, Copy, PartialEq, Eq, Structural)]
pub struct TickAction {
    /// Transcribe the voiced part of the buffer and look for the wake word.
    pub check_wake: bool,
    /// Take the buffer as a finished sentence and handle it.
    pub take_sentence: bool,
    /// Empty the buffer (after a wake-word check, if one is asked for).
    pub clear_buffer: bool,
    /// Forget the reminder that waits for an answer.
    pub clear_pending_reminder: bool,
}

/// Milliseconds from `since` to `now`, zero when the clock went back.
pub open spec fn elapsed(now: u64, since: u64) -> int {
    if now >= since {
        now - since
    } else {
        0
    }
}

fn elapsed_ms(now: u64, since: u64) -> (res: u64)
    ensures
        res == elapsed(now, since),
{
    if now >= since {
        now - since
    } else {
        0
    }
}

impl DialogLoop {
    pub fn new(now_ms: u64) -> (res: DialogLoop)
        ensures
            res.state == DialogState::Idle,
            !res.was_speaking,
            res.active_start_ms == now_ms,
            res.silence_since_ms == now_ms,
            res.last_wake_check_ms is None,
            res.pending_time is None,
    {
        DialogLoop {
            state: DialogState::Idle,
            was_speaking: false,
            active_start_ms: now_ms,
            silence_since_ms: now_ms,
            last_wake_check_ms: None,
            pending_time: None,
        }
    }

    /// The state once a reminder that went off has pulled an idle dialog
    /// into listening.
    pub open spec fn entry_state(self, input: TickInput) -> DialogState {
        if self.state == DialogState::Idle && input.reminder_pending {
            DialogState::Active
        } else {
            self.state
        }
    }

    /// Whether a step ends a burst of speech in the idle state.
    pub open spec fn burst_ends(self, input: TickInput) -> bool {
        self.entry_state(input) == DialogState::Idle && !input.speaking && self.was_speaking
    }

    /// Whether that burst is checked for the wake word: loud, long enough,
    /// and not within two seconds of the last check.
    pub open spec fn wake_check_due(self, input: TickInput) -> bool {
        &&& self.burst_ends(input)
        &&& input.buf_loud
        &&& input.buf_ms >= MIN_BURST_MS
        &&& !(self.last_wake_check_ms matches Some(t) && elapsed(input.now_ms, t)
            < WAKE_CHECK_INTERVAL_MS)
    }

    /// The silence clock after a step: restarted by a pending reminder, by
    /// speech while listening, or by playing speech.
    pub open spec fn silence_after(self, input: TickInput) -> u64 {
        if self.state == DialogState::Idle && input.reminder_pending {
            input.now_ms
        } else if self.state == DialogState::Active && input.speaking {
            input.now_ms
        } else {
            self.silence_since_ms
        }
    }

    /// Whether a step ends a sentence while listening: silence for 1.5 s.
    pub open spec fn sentence_ends(self, input: TickInput) -> bool {
        self.entry_state(input) == DialogState::Active && !input.speaking && elapsed(
            input.now_ms,
            self.silence_after(input),
        ) >= SENTENCE_SILENCE_MS
    }

    /// Whether the sentence is handled: the buffer holds loud audio.
    pub open spec fn sentence_taken(self, input: TickInput) -> bool {
        self.sentence_ends(input) && input.buf_nonempty && input.buf_loud
    }

    /// Whether the listening window runs out in this step.
    pub open spec fn times_out(self, input: TickInput) -> bool {
        let start = if self.state == DialogState::Idle && input.reminder_pending {
            input.now_ms
        } else {
            self.active_start_ms
        };
        self.entry_state(input) == DialogState::Active && !self.sentence_taken(input) && elapsed(
            input.now_ms,
            start,
        ) >= input.window_ms
    }

    /// A sentence is only taken after 1.5 s of silence while listening, and
    /// never in a step where the user speaks.
    pub proof fn law_sentence_needs_silence(self, input: TickInput)
        ensures
            self.sentence_taken(input) ==> !input.speaking && self.entry_state(input)
                == DialogState::Active && elapsed(input.now_ms, self.silence_after(input))
                >= SENTENCE_SILENCE_MS,
    {
    }

    /// The listening window closes only once its full length has passed
    /// since listening began, and never while a sentence is being taken.
    pub proof fn law_window_runs_full_length(self, input: TickInput)
        ensures
            self.times_out(input) ==> !self.sentence_taken(input) && elapsed(
                input.now_ms,
                if self.state == DialogState::Idle && input.reminder_pending {
                    input.now_ms
                } else {
                    self.active_start_ms
                },
            ) >= input.window_ms,
    {
    }

    /// One step of audio. While speech plays, the buffer is dropped and the
    /// silence clock restarts. Otherwise: a pending reminder wakes an idle
    /// dialog; in the idle state the end of a burst drops the buffer, after
    /// a wake-word check when one is due, and a buffer over five seconds is
    /// dropped; while listening, 1.5 s of silence ends a sentence, which is
    /// handled when loud and dropped otherwise, and the listening window
    /// running out returns to idle and forgets the pending reminder.
    pub fn tick(&mut self, input: TickInput) -> (action: TickAction)
        ensures
            input.tts_playing ==> {
                &&& action == TickAction {
                    check_wake: false,
                    take_sentence: false,
                    clear_buffer: true,
                    clear_pending_reminder: false,
                }
                &&& *final(self) == (DialogLoop { silence_since_ms: input.now_ms, ..*old(self) })
            },
            !input.tts_playing ==> {
                let o = *old(self);
                &&& action.check_wake == o.wake_check_due(input)
                &&& action.take_sentence == o.sentence_taken(input)
                &&& action.clear_pending_reminder == o.times_out(input)
                &&& action.clear_buffer == (o.burst_ends(input) || (o.entry_state(input)
                    == DialogState::Idle && input.buf_over_5s) || (o.sentence_ends(input)
                    && !o.sentence_taken(input)) || o.times_out(input))
                &&& final(self).state == (if o.sentence_taken(input) {
                    DialogState::Processing
                } else if o.times_out(input) {
                    DialogState::Idle
                } else {
                    o.entry_state(input)
                })
                &&& final(self).was_speaking == input.speaking
                &&& final(self).active_start_ms == (if o.state == DialogState::Idle
                    && input.reminder_pending {
                    input.now_ms
                } else {
                    o.active_start_ms
                })
                &&& final(self).silence_since_ms == o.silence_after(input)
                &&& final(self).last_wake_check_ms == (if o.wake_check_due(input) {
                    Some(input.now_ms)
                } else {
                    o.last_wake_check_ms
                })
                &&& final(self).pending_time == o.pending_time
            },
    {
        let mut action = TickAction {
            check_wake: false,
            take_sentence: false,
            clear_buffer: false,
            clear_pending_reminder: false,
        };
        if input.tts_playing {
            action.clear_buffer = true;
            self.silence_since_ms = input.now_ms;
            return action;
        }
        let now = input.now_ms;
        if self.state == DialogState::Idle && input.reminder_pending {
            self.state = DialogState::Active;
            self.active_start_ms = now;
            self.silence_since_ms = now;
        }
        match self.state {
            DialogState::Idle => {
                if !input.speaking && self.was_speaking {
                    let throttled = match self.last_wake_check_ms {
                        Some(t) => elapsed_ms(now, t) < WAKE_CHECK_INTERVAL_MS,
                        None => false,
                    };
                    if input.buf_loud && input.buf_ms >= MIN_BURST_MS && !throttled {
                        self.last_wake_check_ms = Some(now);
                        action.check_wake = true;
                    }
                    action.clear_buffer = true;
                } else if input.buf_over_5s {
                    action.clear_buffer = true;
                }
            },
            DialogState::Active => {
                if !input.speaking {
                    if silence_exceeded(elapsed_ms(now, self.silence_since_ms), SENTENCE_SILENCE_MS) {
                        if input.buf_nonempty && input.buf_loud {
                            self.state = transition(self.state, DialogEvent::SentenceEnd);
                            action.take_sentence = true;
                        } else {
                            action.clear_buffer = true;
                        }
                    }
                } else {
                    self.silence_since_ms = now;
                }
                if !action.take_sentence && window_expired(
                    elapsed_ms(now, self.active_start_ms),
                    input.window_ms,
                ) {
                    action.clear_pending_reminder = true;
                    self.state = transition(self.state, DialogEvent::WindowTimeout);
                    action.clear_buffer = true;
                }
            },
            DialogState::Processing => {},
        }
        self.was_speaking = input.speaking;
        action
    }

    /// Whether a transcript of a finished sentence is the wake word said
    /// again: it holds the wake word and is at most twice its length.
    pub open spec fn is_rewake(text: Result<String, String>, wake_word: Seq<char>) -> bool {
        text matches Ok(t) && wake_word_in(t@, wake_word) && t@.len() <= 2 * wake_word.len()
    }

    /// A finished sentence checked for the wake word said again: then the
    /// sentence is done, the dialog keeps listening, and "在呢，请说" is said.
    pub fn rewake(&mut self, text: &Result<String, String>, wake_word: &str) -> (reply: Option<String>)
        ensures
            Self::is_rewake(*text, wake_word@) ==> {
                &&& reply matches Some(r) && r@ == wake_reply()
                &&& *final(self) == (DialogLoop {
                    state: next_state(old(self).state, DialogEvent::ProcessedOk),
                    ..*old(self)
                })
            },
            !Self::is_rewake(*text, wake_word@) ==> reply is None && *final(self) == *old(self),
    {
        match text {
            Ok(t) => {
                let tv = chars_of(t.as_str());
                let wv = chars_of(wake_word);
                if contains_wake_word(t.as_str(), wake_word) && tv.len() as u128 <= 2 * (
                wv.len() as u128) {
                    self.state = transition(self.state, DialogEvent::ProcessedOk);
                    let r = chars_of("在呢，请说");
                    return Some(string_of(&r));
                }
                None
            },
            Err(_) => None,
        }
    }

    /// Whether handling `text` reads a due time from it.
    pub open spec fn route_parses_due(self, text: Result<String, String>, reminder_id: i64) -> bool {
        text matches Ok(t) && if reminder_id > 0 {
            response_parses_due(t@)
        } else {
            self.pending_time is Some
        }
    }

    /// Whether handling `text` reads a due time from it: the test to make
    /// before `route`, whose time amount must then fit.
    pub fn route_reads_due(&self, text: &Result<String, String>, reminder_id: i64) -> (res: bool)
        ensures
            res == self.route_parses_due(*text, reminder_id),
    {
        match text {
            Ok(t) => {
                if reminder_id > 0 {
                    let v = chars_of(t.as_str());
                    let done = ["完成", "好了", "行了", "知道了", "可以了", "收到", "搞定"];
                    let defer = ["延后", "再等", "晚点", "过一会", "过会儿", "稍后", "推迟"];
                    assert(done@ =~= done_keys());
                    assert(defer@ =~= defer_keys());
                    !contains_any(&v, &done) && contains_any(&v, &defer)
                } else {
                    self.pending_time.is_some()
                }
            },
            Err(_) => false,
        }
    }

    /// Where a finished sentence goes, once it is not the wake word again.
    /// A reminder that waits for an answer comes first; then a reminder
    /// that waits for a time; then a system command; then the transcript is
    /// recorded or answered. A failed transcription is reported.
    pub fn route(&mut self, text: &Result<String, String>, reminder_id: i64, now: DateTime) -> (route: SentenceRoute)
        requires
            now.wf(),
            old(self).route_parses_due(*text, reminder_id) ==> (text matches Ok(t) && amount_fits(
                t@,
            )),
        ensures
            reminder_id > 0 ==> {
                let resp = match text {
                    Ok(t) => response_of(t@, now),
                    Err(_) => ReminderResponse::Unknown,
                };
                &&& *final(self) == (DialogLoop {
                    state: next_state(old(self).state, DialogEvent::ProcessedOk),
                    ..*old(self)
                })
                &&& match resp {
                    ReminderResponse::Done => route matches SentenceRoute::ReminderDone {
                        rid,
                        reply,
                    } && rid == reminder_id && reply@ == "好的，已帮你完成"@,
                    ReminderResponse::Deferred(dt) => route matches SentenceRoute::ReminderDeferred {
                        rid,
                        due,
                        reply,
                    } && rid == reminder_id && due@ == formatted(dt, "%Y-%m-%d %H:%M:%S"@)
                        && reply@ == "好的，延后到"@ + friendly_time_spec(dt, now),
                    ReminderResponse::Unknown => route matches SentenceRoute::Say(reply) && reply@
                        == "可以说\"完成\"或\"延后5分钟\""@,
                }
            },
            reminder_id <= 0 && old(self).pending_time is Some ==> {
                let p = old(self).pending_time->0;
                let parsed = match text {
                    Ok(t) => due_of(t@, now),
                    Err(_) => None,
                };
                &&& final(self).state == next_state(old(self).state, DialogEvent::ProcessedOk)
                &&& final(self).was_speaking == old(self).was_speaking
                &&& final(self).active_start_ms == old(self).active_start_ms
                &&& final(self).silence_since_ms == old(self).silence_since_ms
                &&& final(self).last_wake_check_ms == old(self).last_wake_check_ms
                &&& match parsed {
                    Some(dt) => {
                        &&& final(self).pending_time is None
                        &&& route matches SentenceRoute::SetDue { id, due, reply } && id == p.id
                            && due@ == formatted(dt, "%Y-%m-%d %H:%M:%S"@) && reply@ == "好的，"@
                            + friendly_time_spec(dt, now) + "提醒你"@ + p.content@
                    },
                    None => if p.attempts < 2 {
                        &&& final(self).pending_time == Some(
                            PendingTime { attempts: (p.attempts + 1) as u32, ..p },
                        )
                        &&& route matches SentenceRoute::Say(reply) && reply@
                            == "没听清时间，请再说一次，比如'下午三点'"@
                    } else {
                        &&& final(self).pending_time is None
                        &&& route matches SentenceRoute::Say(reply) && reply@
                            == "暂时没设好时间，之后可以重新提醒我"@ + p.content@
                    },
                }
            },
            reminder_id <= 0 && old(self).pending_time is None ==> match text {
                Ok(t) => if !(command_of(t@) is NoCommand) {
                    &&& route matches SentenceRoute::System(c) && c@ == command_of(t@)
                    &&& *final(self) == (DialogLoop {
                        state: next_state(old(self).state, DialogEvent::ProcessedOk),
                        ..*old(self)
                    })
                } else {
                    &&& route matches SentenceRoute::Transcript(x) && x@ == t@
                    &&& *final(self) == *old(self)
                },
                Err(e) => {
                    &&& route matches SentenceRoute::Failed(reply) && reply@ == "查询失败："@ + e@
                    &&& *final(self) == (DialogLoop {
                        state: next_state(old(self).state, DialogEvent::ProcessedErr),
                        ..*old(self)
                    })
                },
            },
    {
        if reminder_id > 0 {
            let resp = match text {
                Ok(t) => handle_reminder_response(t.as_str(), now),
                Err(_) => ReminderResponse::Unknown,
            };
            self.state = transition(self.state, DialogEvent::ProcessedOk);
            return match resp {
                ReminderResponse::Done => {
                    let r = chars_of("好的，已帮你完成");
                    SentenceRoute::ReminderDone { rid: reminder_id, reply: string_of(&r) }
                },
                ReminderResponse::Deferred(dt) => {
                    let due = format_datetime(dt, "%Y-%m-%d %H:%M:%S");
                    let mut r = chars_of("好的，延后到");
                    let f = friendly_time(dt, now);
                    append_str(&mut r, f.as_str());
                    SentenceRoute::ReminderDeferred { rid: reminder_id, due, reply: string_of(&r) }
                },
                ReminderResponse::Unknown => {
                    let r = chars_of("可以说\"完成\"或\"延后5分钟\"");
                    SentenceRoute::Say(string_of(&r))
                },
            };
        }
        match self.pending_time.take() {
            Some(p) => {
                let parsed = match text {
                    Ok(t) => parse_due(t.as_str(), now),
                    Err(_) => None,
                };
                self.state = transition(self.state, DialogEvent::ProcessedOk);
                match parsed {
                    Some(dt) => {
                        let due = format_datetime(dt, "%Y-%m-%d %H:%M:%S");
                        let mut r = chars_of("好的，");
                        let f = friendly_time(dt, now);
                        append_str(&mut r, f.as_str());
                        append_str(&mut r, "提醒你");
                        append_str(&mut r, p.content.as_str());
                        SentenceRoute::SetDue { id: p.id, due, reply: string_of(&r) }
                    },
                    None => {
                        if p.attempts < 2 {
                            let r = chars_of("没听清时间，请再说一次，比如'下午三点'");
                            self.pending_time = Some(
                                PendingTime { id: p.id, content: p.content, attempts: p.attempts + 1 },
                            );
                            SentenceRoute::Say(string_of(&r))
                        } else {
                            let mut r = chars_of("暂时没设好时间，之后可以重新提醒我");
                            append_str(&mut r, p.content.as_str());
                            SentenceRoute::Say(string_of(&r))
                        }
                    },
                }
            },
            None => {
                match text {
                    Ok(t) => {
                        let cmd = parse_system_command(t.as_str());
                        if !cmd.is_no_command() {
                            self.state = transition(self.state, DialogEvent::ProcessedOk);
                            SentenceRoute::System(cmd)
                        } else {
                            SentenceRoute::Transcript(t.clone())
                        }
                    },
                    Err(e) => {
                        self.state = transition(self.state, DialogEvent::ProcessedErr);
                        let mut r = chars_of("查询失败：");
                        append_str(&mut r, e.as_str());
                        SentenceRoute::Failed(string_of(&r))
                    },
                }
            },
        }
    }

    /// The outcome of handling a transcript: a record or an answer is said;
    /// a reminder without a time is asked about and waits for one; a
    /// failure is reported.
    pub fn after_transcript(&mut self, outcome: Result<TranscriptOutcome, String>) -> (reply: Reply)
        ensures
            match outcome {
                Ok(TranscriptOutcome::Recorded(m)) => {
                    &&& reply matches Reply::Deliver(r) && r@ == m@
                    &&& *final(self) == (DialogLoop {
                        state: next_state(old(self).state, DialogEvent::ProcessedOk),
                        ..*old(self)
                    })
                },
                Ok(TranscriptOutcome::Answered(a)) => {
                    &&& reply matches Reply::Deliver(r) && r@ == a@
                    &&& *final(self) == (DialogLoop {
                        state: next_state(old(self).state, DialogEvent::ProcessedOk),
                        ..*old(self)
                    })
                },
                Ok(TranscriptOutcome::NeedsTime(id, content)) => {
                    &&& reply matches Reply::Deliver(r) && r@ == "好的，什么时候提醒你"@ + cleaned(
                        content@,
                    ) + "？"@
                    &&& *final(self) == (DialogLoop {
                        state: next_state(old(self).state, DialogEvent::ProcessedOk),
                        pending_time: Some(PendingTime { id, content, attempts: 0 }),
                        ..*old(self)
                    })
                },
                Err(e) => {
                    &&& reply matches Reply::NotifyError(r) && r@ == "查询失败："@ + e@
                    &&& *final(self) == (DialogLoop {
                        state: next_state(old(self).state, DialogEvent::ProcessedErr),
                        ..*old(self)
                    })
                },
            },
    {
        match outcome {
            Ok(TranscriptOutcome::Recorded(m)) => {
                self.state = transition(self.state, DialogEvent::ProcessedOk);
                Reply::Deliver(m)
            },
            Ok(TranscriptOutcome::Answered(a)) => {
                self.state = transition(self.state, DialogEvent::ProcessedOk);
                Reply::Deliver(a)
            },
            Ok(TranscriptOutcome::NeedsTime(id, content)) => {
                let clean = clean_reminder_content(content.as_str());
                let mut r = chars_of("好的，什么时候提醒你");
                append_str(&mut r, clean.as_str());
                append_str(&mut r, "？");
                self.pending_time = Some(PendingTime { id, content, attempts: 0 });
                self.state = transition(self.state, DialogEvent::ProcessedOk);
                Reply::Deliver(string_of(&r))
            },
            Err(e) => {
                self.state = transition(self.state, DialogEvent::ProcessedErr);
                let mut r = chars_of("查询失败：");
                append_str(&mut r, e.as_str());
                Reply::NotifyError(string_of(&r))
            },
        }
    }

    /// After a sentence is handled, both clocks restart.
    pub fn finish_sentence(&mut self, now_ms: u64)
        ensures
            *final(self) == (DialogLoop {
                active_start_ms: now_ms,
                silence_since_ms: now_ms,
                ..*old(self)
            }),
    {
        self.active_start_ms = now_ms;
        self.silence_since_ms = now_ms;
    }

    /// The result of a wake-word check: on the wake word the dialog starts
    /// listening, both clocks restart, and "在呢，请说" is said.
    pub fn after_wake_check(&mut self, text: &Result<String, String>, wake_word: &str, now_ms: u64) -> (reply: Option<String>)
        ensures
            match text {
                Ok(t) if wake_word_in(t@, wake_word@) => {
                    &&& reply matches Some(r) && r@ == wake_reply()
                    &&& *final(self) == (DialogLoop {
                        state: next_state(old(self).state, DialogEvent::WakeWordHit),
                        active_start_ms: now_ms,
                        silence_since_ms: now_ms,
                        ..*old(self)
                    })
                },
                _ => reply is None && *final(self) == *old(self),
            },
    {
        match text {
            Ok(t) => {
                if contains_wake_word(t.as_str(), wake_word) {
                    self.state = transition(self.state, DialogEvent::WakeWordHit);
                    self.active_start_ms = now_ms;
                    self.silence_since_ms = now_ms;
                    let r = chars_of("在呢，请说");
                    return Some(string_of(&r));
                }
                None
            },
            Err(_) => None,
        }
    }
}

} // verus!
