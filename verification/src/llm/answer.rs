//! The prompt that answers a question from stored memories.
use crate::db::memories::{PersonRow, PreferenceRow};
use crate::db::search::SearchHit;
use crate::text::{append_chars, append_str, chars_of, decimal_int, i64_decimal, string_of};
use vstd::prelude::*;

verus! {

/// The prompt up to the question.
pub const ANSWER_PROMPT_HEAD: &'static str = "你是用户的私人记忆助理。根据提供的记忆证据回答用户问题。
要求：
1. 只依据提供的证据回答；证据不足时明确说\"我还没有这方面的记忆\"。
2. 引用相关对话时标注其编号，如（对话 #3）。
3. 回答用中文，简洁具体。

用户问题：";

/// One line of evidence: "[对话 #id] snippet".
pub open spec fn hit_line(h: SearchHit) -> Seq<char> {
    "[对话 #"@ + decimal_int(h.conversation_id as int) + "] "@ + h.snippet@ + "\n"@
}

/// One remembered person: "- name（关系:relation, 备注:note）".
pub open spec fn person_line(p: PersonRow) -> Seq<char> {
    "- "@ + p.name@ + "（关系:"@ + p.relation@ + ", 备注:"@ + p.note@ + "）\n"@
}

/// One remembered preference: "- topic: value".
pub open spec fn pref_line(p: PreferenceRow) -> Seq<char> {
    "- "@ + p.topic@ + ": "@ + p.value@ + "\n"@
}

pub open spec fn lines<A>(items: Seq<A>, f: spec_fn(A) -> Seq<char>) -> Seq<char>
    decreases items.len(),
{
    if items.len() == 0 {
        Seq::empty()
    } else {
        lines(items.drop_last(), f) + f(items.last())
    }
}

/// The whole prompt: the head, the question, then the evidence, the people
/// and the preferences, each under its own heading.
pub open spec fn answer_prompt(
    question: Seq<char>,
    hits: Seq<SearchHit>,
    people: Seq<PersonRow>,
    prefs: Seq<PreferenceRow>,
) -> Seq<char> {
    ANSWER_PROMPT_HEAD@ + question + "\n\n相关对话记录：\n"@ + lines(hits, |h: SearchHit| hit_line(h))
        + "\n已记住的人脉：\n"@ + lines(people, |p: PersonRow| person_line(p)) + "\n已记住的偏好：\n"@
        + lines(prefs, |p: PreferenceRow| pref_line(p))
}

pub fn build_answer_prompt(
    question: &str,
    hits: &[SearchHit],
    people: &[PersonRow],
    prefs: &[PreferenceRow],
) -> (res: String)
    ensures
        res@ == answer_prompt(question@, hits@, people@, prefs@),
{
    let mut evidence: Vec<char> = Vec::new();
    let mut i: usize = 0;
    while i < hits.len()
        invariant
            i <= hits.len(),
            evidence@ == lines(hits@.subrange(0, i as int), |h: SearchHit| hit_line(h)),
        decreases hits.len() - i,
    {
        assert(hits@.subrange(0, i + 1).drop_last() =~= hits@.subrange(0, i as int));
        append_str(&mut evidence, "[对话 #");
        let id = i64_decimal(hits[i].conversation_id);
        append_chars(&mut evidence, &id);
        append_str(&mut evidence, "] ");
        append_str(&mut evidence, hits[i].snippet.as_str());
        append_str(&mut evidence, "\n");
        i = i + 1;
    }
    assert(hits@.subrange(0, hits.len() as int) =~= hits@);
    let mut people_str: Vec<char> = Vec::new();
    let mut j: usize = 0;
    while j < people.len()
        invariant
            j <= people.len(),
            people_str@ == lines(people@.subrange(0, j as int), |p: PersonRow| person_line(p)),
        decreases people.len() - j,
    {
        assert(people@.subrange(0, j + 1).drop_last() =~= people@.subrange(0, j as int));
        append_str(&mut people_str, "- ");
        append_str(&mut people_str, people[j].name.as_str());
        append_str(&mut people_str, "（关系:");
        append_str(&mut people_str, people[j].relation.as_str());
        append_str(&mut people_str, ", 备注:");
        append_str(&mut people_str, people[j].note.as_str());
        append_str(&mut people_str, "）\n");
        j = j + 1;
    }
    assert(people@.subrange(0, people.len() as int) =~= people@);
    let mut prefs_str: Vec<char> = Vec::new();
    let mut k: usize = 0;
    while k < prefs.len()
        invariant
            k <= prefs.len(),
            prefs_str@ == lines(prefs@.subrange(0, k as int), |p: PreferenceRow| pref_line(p)),
        decreases prefs.len() - k,
    {
        assert(prefs@.subrange(0, k + 1).drop_last() =~= prefs@.subrange(0, k as int));
        append_str(&mut prefs_str, "- ");
        append_str(&mut prefs_str, prefs[k].topic.as_str());
        append_str(&mut prefs_str, ": ");
        append_str(&mut prefs_str, prefs[k].value.as_str());
        append_str(&mut prefs_str, "\n");
        k = k + 1;
    }
    assert(prefs@.subrange(0, prefs.len() as int) =~= prefs@);
    let mut out = chars_of(ANSWER_PROMPT_HEAD);
    append_str(&mut out, question);
    append_str(&mut out, "\n\n相关对话记录：\n");
    append_chars(&mut out, &evidence);
    append_str(&mut out, "\n已记住的人脉：\n");
    append_chars(&mut out, &people_str);
    append_str(&mut out, "\n已记住的偏好：\n");
    append_chars(&mut out, &prefs_str);
    string_of(&out)
}

} // verus!
