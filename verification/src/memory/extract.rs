//! The extraction prompt, and the cleaning of reminder texts.
use crate::text::{
    append_str, chars_of, string_of, strip_prefix, strip_prefix_str, trim, trim_vec,
    trim_end, trim_start, is_ws,
};
use vstd::prelude::*;

verus! {

/// The extraction prompt up to the transcript.
pub const EXTRACT_PROMPT_HEAD: &'static str = "你是个人助理的记忆抽取器。从用户的语音转写文本中抽取结构化记忆，只输出合法 JSON，不要任何多余文字。
输出格式（缺失项给空数组或 null）：
{
  \"people\": [{\"name\": \"人名\", \"relation\": \"关系(可选)\", \"note\": \"备注(可选)\"}],
  \"reminders\": [{\"content\": \"待办事项核心，去掉'提醒我/帮我/记得'等前缀（如'提醒我喝水'→'喝水'；'帮我记得买牛奶'→'买牛奶'）\", \"due\": \"时间表达：直接抄录用户说的相对时间原文（如'3分钟后'、'明天早上9点'、'后天下午3点'、'周五晚上'），没有明确时间则 null\"}],
  \"preferences\": [{\"topic\": \"偏好主题\", \"value\": \"偏好内容\"}],
  \"episode\": {\"summary\": \"本次事件摘要\", \"people\": [\"人物\"], \"place\": \"地点或 null\"}
}

转写文本：
";

/// The prompt that asks the model for the memories in `transcript`.
pub fn build_extract_prompt(transcript: &str) -> (res: String)
    ensures
        res@ == EXTRACT_PROMPT_HEAD@ + transcript@,
{
    let mut v = chars_of(EXTRACT_PROMPT_HEAD);
    append_str(&mut v, transcript);
    string_of(&v)
}

/// The lead-ins that `clean_reminder_content` takes off, in the order it
/// tries them.
pub open spec fn reminder_lead_ins() -> Seq<&'static str> {
    seq!["提醒我", "提醒你", "帮我提醒", "帮我", "记得提醒", "记得", "请提醒", "提醒"]
}

/// The trimmed rest of `t` after the first lead-in, from `i` on, that
/// leaves a non-empty rest.
pub open spec fn lead_in_rest(t: Seq<char>, i: int) -> Option<Seq<char>>
    decreases 8 - i,
{
    if i < 0 || i >= 8 {
        None
    } else {
        match strip_prefix(t, reminder_lead_ins()[i]@) {
            Some(rest) => if trim(rest).len() > 0 {
                Some(trim(rest))
            } else {
                lead_in_rest(t, i + 1)
            },
            None => lead_in_rest(t, i + 1),
        }
    }
}

pub proof fn lemma_trim_len(s: Seq<char>)
    ensures
        trim(s).len() <= s.len(),
        trim_start(s).len() <= s.len(),
    decreases s.len(),
{
    lemma_trim_start_len(s);
    lemma_trim_end_len(trim_start(s));
}

pub proof fn lemma_trim_start_len(s: Seq<char>)
    ensures
        trim_start(s).len() <= s.len(),
    decreases s.len(),
{
    if s.len() > 0 && is_ws(s[0]) {
        lemma_trim_start_len(s.drop_first());
    }
}

pub proof fn lemma_trim_end_len(s: Seq<char>)
    ensures
        trim_end(s).len() <= s.len(),
    decreases s.len(),
{
    if s.len() > 0 && is_ws(s.last()) {
        lemma_trim_end_len(s.drop_last());
    }
}

pub proof fn lemma_lead_in_rest_shorter(t: Seq<char>, i: int)
    requires
        0 <= i,
    ensures
        lead_in_rest(t, i) matches Some(r) ==> r.len() < t.len(),
    decreases 8 - i,
{
    if i < 8 {
        reveal_strlit("提醒我");
        reveal_strlit("提醒你");
        reveal_strlit("帮我提醒");
        reveal_strlit("帮我");
        reveal_strlit("记得提醒");
        reveal_strlit("记得");
        reveal_strlit("请提醒");
        reveal_strlit("提醒");
        let p = reminder_lead_ins()[i]@;
        assert(p.len() > 0);
        match strip_prefix(t, p) {
            Some(rest) => {
                lemma_trim_len(rest);
            },
            None => {},
        }
        lemma_lead_in_rest_shorter(t, i + 1);
    }
}

/// The core of a reminder text: trimmed, with lead-ins such as "提醒我",
/// "帮我" or "记得" taken off again and again while something is left.
pub open spec fn cleaned(s: Seq<char>) -> Seq<char>
    decreases s.len(),
{
    let t = trim(s);
    match lead_in_rest(t, 0) {
        Some(rest) => {
            proof {
                lemma_trim_len(s);
                lemma_lead_in_rest_shorter(t, 0);
            }
            cleaned(rest)
        },
        None => t,
    }
}

fn clean_chars(s: &Vec<char>) -> (res: Vec<char>)
    ensures
        res@ == cleaned(s@),
    decreases s@.len(),
{
    let t = trim_vec(s);
    let lead_ins = ["提醒我", "提醒你", "帮我提醒", "帮我", "记得提醒", "记得", "请提醒", "提醒"];
    assert(lead_ins@ =~= reminder_lead_ins());
    proof {
        lemma_trim_len(s@);
        lemma_lead_in_rest_shorter(t@, 0);
    }
    let mut i: usize = 0;
    while i < 8
        invariant
            i <= 8,
            lead_ins@ == reminder_lead_ins(),
            t@ == trim(s@),
            t@.len() <= s@.len(),
            lead_in_rest(t@, 0) matches Some(r) ==> r.len() < t@.len(),
            lead_in_rest(t@, 0) == lead_in_rest(t@, i as int),
        decreases 8 - i,
    {
        match strip_prefix_str(&t, lead_ins[i]) {
            Some(rest) => {
                let r = trim_vec(&rest);
                if r.len() > 0 {
                    assert(lead_in_rest(t@, i as int) == Some(r@));
                    return clean_chars(&r);
                }
            },
            None => {},
        }
        i = i + 1;
    }
    t
}

proof fn lemma_cleaned_is_final(s: Seq<char>)
    ensures
        trim(cleaned(s)) == cleaned(s),
        lead_in_rest(cleaned(s), 0) is None,
    decreases s.len(),
{
    let t = trim(s);
    lemma_trim_len(s);
    lemma_lead_in_rest_shorter(t, 0);
    match lead_in_rest(t, 0) {
        Some(rest) => {
            lemma_cleaned_is_final(rest);
        },
        None => {
            crate::text::lemma_trim_idempotent(s);
        },
    }
}

/// Cleaning a cleaned reminder text changes nothing: no lead-in is left to
/// take off.
pub proof fn law_clean_reminder_idempotent(s: Seq<char>)
    ensures
        cleaned(cleaned(s)) == cleaned(s),
{
    lemma_cleaned_is_final(s);
    let r = cleaned(s);
    assert(trim(r) == r);
}

/// The core of a reminder text (see `cleaned`).
pub fn clean_reminder_content(s: &str) -> (res: String)
    ensures
        res@ == cleaned(s@),
{
    let v = chars_of(s);
    let r = clean_chars(&v);
    string_of(&r)
}

} // verus!
