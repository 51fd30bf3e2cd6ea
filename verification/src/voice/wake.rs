//! Wake-word detection on pinyin: the transcript and the wake word are both
//! read as toneless pinyin, aspirated initials are folded onto their
//! unaspirated partners, and the wake word must appear in order with at
//! most a few extra letters slipped in.
use crate::text::{chars_of, string_of};
use pinyin::ToPinyin;
use vstd::prelude::*;

verus! {

/// The toneless ("plain") pinyin that the `pinyin` crate gives a character,
/// or `None` for a character it has no reading for.
pub uninterp spec fn plain_pinyin(c: char) -> Option<Seq<char>>;

/// `pinyin::ToPinyin::to_pinyin` on one `char`, then `Pinyin::plain`: the
/// reading is `plain_pinyin(c)`, with no further claim on its letters.
#[verifier::external_body]
fn char_plain_pinyin(c: char) -> (res: Option<String>)
    ensures
        match res {
            Some(p) => plain_pinyin(c) == Some(p@),
            None => plain_pinyin(c) is None,
        },
{
    match c.to_pinyin() {
        Some(p) => Some(p.plain().to_string()),
        None => None,
    }
}

/// The plain pinyin of every character of `s` that has one, run together.
pub open spec fn pinyin_run(s: Seq<char>) -> Seq<char>
    decreases s.len(),
{
    if s.len() == 0 {
        Seq::empty()
    } else {
        pinyin_run(s.drop_last()) + match plain_pinyin(s.last()) {
            Some(p) => p,
            None => Seq::empty(),
        }
    }
}

/// Aspirated initials folded onto unaspirated ones: c→z (so ch→zh), p→b,
/// t→d, k→g, q→j.
pub open spec fn unaspirate(c: char) -> char {
    if c == 'c' {
        'z'
    } else if c == 'p' {
        'b'
    } else if c == 't' {
        'd'
    } else if c == 'k' {
        'g'
    } else if c == 'q' {
        'j'
    } else {
        c
    }
}

pub open spec fn normalized(s: Seq<char>) -> Seq<char> {
    s.map_values(|c: char| unaspirate(c))
}

/// The key on which texts are compared.
pub open spec fn key_of(s: Seq<char>) -> Seq<char> {
    normalized(pinyin_run(s))
}

pub fn normalize_aspiration(s: &str) -> (res: String)
    ensures
        res@ == normalized(s@),
{
    let v = chars_of(s);
    let mut out: Vec<char> = Vec::new();
    let mut i: usize = 0;
    while i < v.len()
        invariant
            v@ == s@,
            i <= v.len(),
            out@ == normalized(v@.subrange(0, i as int)),
        decreases v.len() - i,
    {
        let c = v[i];
        let d = if c == 'c' {
            'z'
        } else if c == 'p' {
            'b'
        } else if c == 't' {
            'd'
        } else if c == 'k' {
            'g'
        } else if c == 'q' {
            'j'
        } else {
            c
        };
        out.push(d);
        assert(normalized(v@.subrange(0, i + 1)) =~= normalized(v@.subrange(0, i as int)).push(
            d,
        ));
        i = i + 1;
    }
    assert(v@.subrange(0, v.len() as int) =~= v@);
    string_of(&out)
}

pub fn pinyin_key(text: &str) -> (res: String)
    ensures
        res@ == key_of(text@),
{
    let v = chars_of(text);
    let mut raw: Vec<char> = Vec::new();
    let mut i: usize = 0;
    while i < v.len()
        invariant
            v@ == text@,
            i <= v.len(),
            raw@ == pinyin_run(v@.subrange(0, i as int)),
        decreases v.len() - i,
    {
        let ghost before = raw@;
        match char_plain_pinyin(v[i]) {
            Some(p) => {
                let pv = chars_of(p.as_str());
                crate::text::append_chars(&mut raw, &pv);
            },
            None => {},
        }
        assert(v@.subrange(0, i + 1).drop_last() =~= v@.subrange(0, i as int));
        proof {
            if plain_pinyin(v@[i as int]) is None {
                assert(raw@ =~= before + Seq::<char>::empty());
            }
        }
        i = i + 1;
    }
    assert(v@.subrange(0, v.len() as int) =~= v@);
    let r = string_of(&raw);
    normalize_aspiration(r.as_str())
}

/// The matching that `fuzzy_contains` performs, from text position `ti`
/// and wake position `wi` with `skipped` text letters passed over so far:
/// each wake letter is matched to its next occurrence in the text, and more
/// than `max_insert` letters passed over in all is a failure.
pub open spec fn fuzzy_from(
    t: Seq<char>,
    w: Seq<char>,
    ti: int,
    wi: int,
    skipped: int,
    max_insert: int,
) -> bool
    decreases w.len() - wi, t.len() - ti,
{
    if wi < 0 || ti < 0 || wi >= w.len() {
        true
    } else if ti >= t.len() {
        false
    } else if t[ti] == w[wi] {
        fuzzy_from(t, w, ti + 1, wi + 1, skipped, max_insert)
    } else if skipped + 1 > max_insert {
        false
    } else {
        fuzzy_from(t, w, ti + 1, wi, skipped + 1, max_insert)
    }
}

pub open spec fn fuzzy_match(t: Seq<char>, w: Seq<char>, max_insert: int) -> bool {
    fuzzy_from(t, w, 0, 0, 0, max_insert)
}

pub fn fuzzy_contains(text_key: &str, wake_key: &str, max_insert: usize) -> (res: bool)
    ensures
        res == fuzzy_match(text_key@, wake_key@, max_insert as int),
{
    let t = chars_of(text_key);
    let w = chars_of(wake_key);
    let mut ti: usize = 0;
    let mut skipped: usize = 0;
    let mut wi: usize = 0;
    while wi < w.len()
        invariant
            t@ == text_key@,
            w@ == wake_key@,
            wi <= w.len(),
            ti <= t.len(),
            skipped <= max_insert,
            fuzzy_match(t@, w@, max_insert as int) == fuzzy_from(
                t@,
                w@,
                ti as int,
                wi as int,
                skipped as int,
                max_insert as int,
            ),
        decreases w.len() - wi,
    {
        let wc = w[wi];
        while ti < t.len() && t[ti] != wc
            invariant
                t@ == text_key@,
                w@ == wake_key@,
                wi < w.len(),
                wc == w@[wi as int],
                ti <= t.len(),
                skipped <= max_insert,
                fuzzy_match(t@, w@, max_insert as int) == fuzzy_from(
                    t@,
                    w@,
                    ti as int,
                    wi as int,
                    skipped as int,
                    max_insert as int,
                ),
            decreases t.len() - ti,
        {
            ti = ti + 1;
            if skipped >= max_insert {
                return false;
            }
            skipped = skipped + 1;
        }
        if ti >= t.len() {
            return false;
        }
        ti = ti + 1;
        wi = wi + 1;
    }
    true
}

/// Whether the transcript `text` holds the wake word: both non-empty, the
/// wake word's key non-empty, and the key found in the text's key with at
/// most three letters slipped in.
pub open spec fn wake_word_in(text: Seq<char>, wake_word: Seq<char>) -> bool {
    text.len() > 0 && wake_word.len() > 0 && key_of(wake_word).len() > 0 && fuzzy_match(
        key_of(text),
        key_of(wake_word),
        3,
    )
}

pub fn contains_wake_word(text: &str, wake_word: &str) -> (res: bool)
    ensures
        res == wake_word_in(text@, wake_word@),
{
    let tv = chars_of(text);
    let wv = chars_of(wake_word);
    if tv.len() == 0 || wv.len() == 0 {
        return false;
    }
    let text_key = pinyin_key(text);
    let wake_key = pinyin_key(wake_word);
    let wk = chars_of(wake_key.as_str());
    if wk.len() == 0 {
        return false;
    }
    fuzzy_contains(text_key.as_str(), wake_key.as_str(), 3)
}


/// Folding aspirated initials twice folds nothing more.
pub proof fn law_normalize_idempotent(s: Seq<char>)
    ensures
        normalized(normalized(s)) == normalized(s),
{
    assert(normalized(normalized(s)) =~= normalized(s));
}

/// `w` is a subsequence of `t[ti..]`.
pub open spec fn subsequence_from(t: Seq<char>, w: Seq<char>, ti: int, wi: int) -> bool
    decreases w.len() - wi, t.len() - ti,
{
    if wi < 0 || ti < 0 || wi >= w.len() {
        true
    } else if ti >= t.len() {
        false
    } else if t[ti] == w[wi] {
        subsequence_from(t, w, ti + 1, wi + 1)
    } else {
        subsequence_from(t, w, ti + 1, wi)
    }
}

proof fn lemma_fuzzy_from_subsequence(
    t: Seq<char>,
    w: Seq<char>,
    ti: int,
    wi: int,
    skipped: int,
    m: int,
)
    requires
        fuzzy_from(t, w, ti, wi, skipped, m),
    ensures
        subsequence_from(t, w, ti, wi),
    decreases w.len() - wi, t.len() - ti,
{
    if wi < 0 || ti < 0 || wi >= w.len() {
    } else if ti >= t.len() {
    } else if t[ti] == w[wi] {
        lemma_fuzzy_from_subsequence(t, w, ti + 1, wi + 1, skipped, m);
    } else {
        lemma_fuzzy_from_subsequence(t, w, ti + 1, wi, skipped + 1, m);
    }
}

/// A fuzzy match finds every letter of the wake key, in order, in the text
/// key.
pub proof fn law_fuzzy_match_is_subsequence(t: Seq<char>, w: Seq<char>, max_insert: int)
    requires
        fuzzy_match(t, w, max_insert),
    ensures
        subsequence_from(t, w, 0, 0),
{
    lemma_fuzzy_from_subsequence(t, w, 0, 0, 0, max_insert);
}

proof fn lemma_prefix_matches(t: Seq<char>, w: Seq<char>, i: int, skipped: int, m: int)
    requires
        0 <= i <= w.len() <= t.len(),
        t.subrange(0, w.len() as int) == w,
    ensures
        fuzzy_from(t, w, i, i, skipped, m),
    decreases w.len() - i,
{
    if i < w.len() {
        assert(t[i] == t.subrange(0, w.len() as int)[i]);
        lemma_prefix_matches(t, w, i + 1, skipped, m);
    }
}

/// A text key that begins with the wake key matches it, whatever else
/// follows.
pub proof fn law_prefix_matches(t: Seq<char>, w: Seq<char>, max_insert: int)
    requires
        crate::text::has_prefix(t, w),
    ensures
        fuzzy_match(t, w, max_insert),
{
    lemma_prefix_matches(t, w, 0, 0, max_insert);
}

/// Saying just the wake word wakes the assistant, when the wake word has a
/// reading.
pub proof fn law_wake_word_wakes(wake_word: Seq<char>)
    requires
        wake_word.len() > 0,
        key_of(wake_word).len() > 0,
    ensures
        wake_word_in(wake_word, wake_word),
{
    let k = key_of(wake_word);
    assert(k.subrange(0, k.len() as int) =~= k);
    law_prefix_matches(k, k, 3);
}

} // verus!
