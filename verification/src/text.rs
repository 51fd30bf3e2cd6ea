//! Character-level text toolkit: every operation works on the sequence of
//! Unicode scalar values of a string, which is how the command parsers of
//! this crate read their input.
use vstd::prelude::*;

verus! {

/// Unicode `White_Space` property, the set that `char::is_whitespace` tests.
pub open spec fn is_ws(c: char) -> bool {
    ||| ('\u{9}' <= c && c <= '\u{d}')
    ||| c == ' '
    ||| c == '\u{85}'
    ||| c == '\u{a0}'
    ||| c == '\u{1680}'
    ||| ('\u{2000}' <= c && c <= '\u{200a}')
    ||| c == '\u{2028}'
    ||| c == '\u{2029}'
    ||| c == '\u{202f}'
    ||| c == '\u{205f}'
    ||| c == '\u{3000}'
}

pub fn is_whitespace(c: char) -> (res: bool)
    ensures
        res == is_ws(c),
{
    ('\u{9}' <= c && c <= '\u{d}') || c == ' ' || c == '\u{85}' || c == '\u{a0}' || c
        == '\u{1680}' || ('\u{2000}' <= c && c <= '\u{200a}') || c == '\u{2028}' || c
        == '\u{2029}' || c == '\u{202f}' || c == '\u{205f}' || c == '\u{3000}'
}

/// The characters of a string, in order.
pub fn chars_of(s: &str) -> (res: Vec<char>)
    ensures
        res@ == s@,
{
    let mut res: Vec<char> = Vec::new();
    for c in it: s.chars()
        invariant
            res@ == it.seq().take(it.index() as int),
    {
        res.push(c);
    }
    res
}


/// `p` stands at position `i` of `s`.
pub open spec fn occurs_at(s: Seq<char>, p: Seq<char>, i: int) -> bool {
    0 <= i && i + p.len() <= s.len() && s.subrange(i, i + p.len()) =~= p
}

/// `s` holds `p` as a contiguous piece (`str::contains`).
pub open spec fn has_sub(s: Seq<char>, p: Seq<char>) -> bool {
    exists|i: int| occurs_at(s, p, i)
}

/// `s` begins with `p` (`str::starts_with`).
pub open spec fn has_prefix(s: Seq<char>, p: Seq<char>) -> bool {
    occurs_at(s, p, 0)
}

/// The first position at or after `i` where `p` stands in `s`.
pub open spec fn find_from(s: Seq<char>, p: Seq<char>, i: int) -> Option<int>
    decreases s.len() - i,
{
    if i < 0 || i + p.len() > s.len() {
        None
    } else if occurs_at(s, p, i) {
        Some(i)
    } else {
        find_from(s, p, i + 1)
    }
}

pub proof fn lemma_find_from(s: Seq<char>, p: Seq<char>, i: int)
    requires
        0 <= i,
    ensures
        find_from(s, p, i) matches Some(k) ==> i <= k && occurs_at(s, p, k) && forall|j: int|
            i <= j < k ==> !occurs_at(s, p, j),
        find_from(s, p, i) is None ==> forall|j: int| i <= j ==> !occurs_at(s, p, j),
    decreases s.len() - i,
{
    if i + p.len() > s.len() {
    } else if occurs_at(s, p, i) {
    } else {
        lemma_find_from(s, p, i + 1);
        assert forall|j: int| i <= j && #[trigger] occurs_at(s, p, j) implies find_from(
            s,
            p,
            i,
        ) is Some && j >= find_from(s, p, i)->0 by {
            if j == i {
            }
        }
    }
}

/// The first position of `p` in `s` (`str::find`).
pub open spec fn find_first(s: Seq<char>, p: Seq<char>) -> Option<int> {
    find_from(s, p, 0)
}

pub proof fn lemma_find_first(s: Seq<char>, p: Seq<char>)
    ensures
        find_first(s, p) is Some <==> has_sub(s, p),
        find_first(s, p) matches Some(k) ==> occurs_at(s, p, k),
{
    lemma_find_from(s, p, 0);
    if has_sub(s, p) {
        let j = choose|j: int| occurs_at(s, p, j);
        assert(0 <= j);
    }
}

/// Whitespace removed from the front (`str::trim_start`).
pub open spec fn trim_start(s: Seq<char>) -> Seq<char>
    decreases s.len(),
{
    if s.len() > 0 && is_ws(s[0]) {
        trim_start(s.drop_first())
    } else {
        s
    }
}

/// Whitespace removed from the back (`str::trim_end`).
pub open spec fn trim_end(s: Seq<char>) -> Seq<char>
    decreases s.len(),
{
    if s.len() > 0 && is_ws(s.last()) {
        trim_end(s.drop_last())
    } else {
        s
    }
}

/// Whitespace removed from both ends (`str::trim`).
pub open spec fn trim(s: Seq<char>) -> Seq<char> {
    trim_end(trim_start(s))
}

/// `s` without the prefix `p`, when it has it (`str::strip_prefix`).
pub open spec fn strip_prefix(s: Seq<char>, p: Seq<char>) -> Option<Seq<char>> {
    if has_prefix(s, p) {
        Some(s.subrange(p.len() as int, s.len() as int))
    } else {
        None
    }
}

/// Every leading copy of `p` removed (`str::trim_start_matches` with a string pattern).
pub open spec fn trim_start_matches(s: Seq<char>, p: Seq<char>) -> Seq<char>
    decreases s.len(),
{
    if p.len() > 0 && has_prefix(s, p) {
        trim_start_matches(s.subrange(p.len() as int, s.len() as int), p)
    } else {
        s
    }
}

/// The two sides of the first `p` in `s` (`str::split_once`).
pub open spec fn split_once(s: Seq<char>, p: Seq<char>) -> Option<(Seq<char>, Seq<char>)> {
    match find_first(s, p) {
        Some(k) => Some((s.subrange(0, k), s.subrange(k + p.len(), s.len() as int))),
        None => None,
    }
}

pub open spec fn is_digit(c: char) -> bool {
    '0' <= c && c <= '9'
}

/// The ASCII digits of `s`, in order.
pub open spec fn digits_of(s: Seq<char>) -> Seq<char> {
    s.filter(|c: char| is_digit(c))
}

/// A copy of `s[a..b]`.
pub fn subvec(s: &Vec<char>, a: usize, b: usize) -> (res: Vec<char>)
    requires
        a <= b <= s.len(),
    ensures
        res@ == s@.subrange(a as int, b as int),
{
    let mut res: Vec<char> = Vec::new();
    let mut i = a;
    while i < b
        invariant
            a <= i <= b <= s.len(),
            res@ == s@.subrange(a as int, i as int),
        decreases b - i,
    {
        res.push(s[i]);
        i = i + 1;
    }
    res
}

/// Whether `p` stands at position `i` of `s`.
pub fn occurs_at_exec(s: &Vec<char>, p: &Vec<char>, i: usize) -> (res: bool)
    ensures
        res == occurs_at(s@, p@, i as int),
{
    if i > s.len() || p.len() > s.len() - i {
        return false;
    }
    let mut k: usize = 0;
    while k < p.len()
        invariant
            i + p.len() <= s.len(),
            k <= p.len(),
            forall|j: int| 0 <= j < k ==> s@[i + j] == p@[j],
        decreases p.len() - k,
    {
        if s[i + k] != p[k] {
            assert(s@.subrange(i as int, i + p.len())[k as int] != p@[k as int]);
            return false;
        }
        k = k + 1;
    }
    assert(s@.subrange(i as int, i + p.len()) =~= p@);
    true
}

/// The first position of `p` in `s`.
pub fn find(s: &Vec<char>, p: &Vec<char>) -> (res: Option<usize>)
    ensures
        match res {
            Some(k) => find_first(s@, p@) == Some(k as int),
            None => find_first(s@, p@) is None,
        },
{
    if p.len() > s.len() {
        return None;
    }
    let last = s.len() - p.len();
    let mut i: usize = 0;
    while i <= last
        invariant
            last + p.len() == s.len(),
            i <= last + 1,
            find_from(s@, p@, 0) == find_from(s@, p@, i as int),
        decreases last + 1 - i,
    {
        if occurs_at_exec(s, p, i) {
            return Some(i);
        }
        i = i + 1;
    }
    None
}

/// Whether `s` holds `p`.
pub fn contains(s: &Vec<char>, p: &Vec<char>) -> (res: bool)
    ensures
        res == has_sub(s@, p@),
{
    proof {
        lemma_find_first(s@, p@);
    }
    find(s, p).is_some()
}

/// Whether `s` holds the string `p`.
pub fn contains_str(s: &Vec<char>, p: &str) -> (res: bool)
    ensures
        res == has_sub(s@, p@),
{
    let pv = chars_of(p);
    contains(s, &pv)
}

/// Whether `s` begins with the string `p`.
pub fn starts_with_str(s: &Vec<char>, p: &str) -> (res: bool)
    ensures
        res == has_prefix(s@, p@),
{
    let pv = chars_of(p);
    occurs_at_exec(s, &pv, 0)
}

/// Whether `s` holds the character `c`.
pub fn contains_char(s: &Vec<char>, c: char) -> (res: bool)
    ensures
        res == s@.contains(c),
{
    let mut i: usize = 0;
    while i < s.len()
        invariant
            i <= s.len(),
            forall|j: int| 0 <= j < i ==> s@[j] != c,
        decreases s.len() - i,
    {
        if s[i] == c {
            return true;
        }
        i = i + 1;
    }
    false
}

/// `s` with whitespace removed from both ends.
pub fn trim_vec(s: &Vec<char>) -> (res: Vec<char>)
    ensures
        res@ == trim(s@),
{
    let mut a: usize = 0;
    assert(s@.subrange(0, s.len() as int) =~= s@);
    while a < s.len() && is_whitespace(s[a])
        invariant
            a <= s.len(),
            trim_start(s@) == trim_start(s@.subrange(a as int, s.len() as int)),
        decreases s.len() - a,
    {
        assert(s@.subrange(a as int, s.len() as int).drop_first() =~= s@.subrange(
            a + 1,
            s.len() as int,
        ));
        a = a + 1;
    }
    let ghost ts = s@.subrange(a as int, s.len() as int);
    assert(trim_start(ts) == ts);
    let mut b: usize = s.len();
    while b > a && is_whitespace(s[b - 1])
        invariant
            a <= b <= s.len(),
            trim_end(ts) == trim_end(s@.subrange(a as int, b as int)),
        decreases b - a,
    {
        assert(s@.subrange(a as int, b as int).drop_last() =~= s@.subrange(a as int, b - 1));
        b = b - 1;
    }
    subvec(s, a, b)
}

/// The string `s`, trimmed, as characters.
pub fn trimmed_chars(s: &str) -> (res: Vec<char>)
    ensures
        res@ == trim(s@),
{
    let v = chars_of(s);
    trim_vec(&v)
}

/// `s` without the prefix `p`, when it has it.
pub fn strip_prefix_str(s: &Vec<char>, p: &str) -> (res: Option<Vec<char>>)
    ensures
        match res {
            Some(r) => strip_prefix(s@, p@) == Some(r@),
            None => strip_prefix(s@, p@) is None,
        },
{
    let pv = chars_of(p);
    if occurs_at_exec(s, &pv, 0) {
        Some(subvec(s, pv.len(), s.len()))
    } else {
        None
    }
}

/// `s` with every leading copy of `p` removed.
pub fn trim_start_matches_str(s: &Vec<char>, p: &str) -> (res: Vec<char>)
    ensures
        res@ == trim_start_matches(s@, p@),
{
    let pv = chars_of(p);
    if pv.len() == 0 {
        return subvec(s, 0, s.len());
    }
    let mut a: usize = 0;
    assert(s@.subrange(0, s.len() as int) =~= s@);
    while occurs_at_exec(s, &pv, a)
        invariant
            pv@ == p@,
            pv.len() > 0,
            a <= s.len(),
            trim_start_matches(s@, p@) == trim_start_matches(
                s@.subrange(a as int, s.len() as int),
                p@,
            ),
        decreases s.len() - a,
    {
        let ghost r = s@.subrange(a as int, s.len() as int);
        assert(r.subrange(0, pv.len() as int) =~= s@.subrange(a as int, a + pv.len()));
        assert(r.subrange(pv.len() as int, r.len() as int) =~= s@.subrange(
            a + pv.len(),
            s.len() as int,
        ));
        a = a + pv.len();
    }
    let ghost r = s@.subrange(a as int, s.len() as int);
    assert(!has_prefix(r, p@)) by {
        if has_prefix(r, p@) {
            assert(r.subrange(0, pv.len() as int) =~= s@.subrange(a as int, a + pv.len()));
        }
    }
    subvec(s, a, s.len())
}

/// The two sides of the first `p` in `s`.
pub fn split_once_str(s: &Vec<char>, p: &str) -> (res: Option<(Vec<char>, Vec<char>)>)
    ensures
        match res {
            Some((l, r)) => split_once(s@, p@) == Some((l@, r@)),
            None => split_once(s@, p@) is None,
        },
{
    let pv = chars_of(p);
    match find(s, &pv) {
        Some(k) => {
            proof {
                lemma_find_first(s@, p@);
                assert(occurs_at(s@, p@, k as int));
            }
            let n = pv.len();
            assert(k + n <= s.len());
            let left = subvec(s, 0, k);
            let right = subvec(s, k + n, s.len());
            Some((left, right))
        },
        None => None,
    }
}

/// The ASCII digits of `s`, in order.
pub fn digits_vec(s: &Vec<char>) -> (res: Vec<char>)
    ensures
        res@ == digits_of(s@),
{
    let mut res: Vec<char> = Vec::new();
    let mut i: usize = 0;
    while i < s.len()
        invariant
            i <= s.len(),
            res@ == digits_of(s@.subrange(0, i as int)),
        decreases s.len() - i,
    {
        proof {
            reveal_with_fuel(Seq::filter, 1);
            assert(s@.subrange(0, i + 1).drop_last() =~= s@.subrange(0, i as int));
        }
        if '0' <= s[i] && s[i] <= '9' {
            res.push(s[i]);
        }
        i = i + 1;
    }
    assert(s@.subrange(0, s.len() as int) =~= s@);
    res
}

/// Appends a character to a `String` (`String::push`).
#[verifier::external_body]
pub(crate) fn push_char(s: &mut String, c: char)
    ensures
        final(s)@ == old(s)@.push(c),
{
    s.push(c);
}

/// The string made of the characters `v`.
pub fn string_of(v: &Vec<char>) -> (res: String)
    ensures
        res@ == v@,
{
    let mut res = String::new();
    let mut i: usize = 0;
    while i < v.len()
        invariant
            i <= v.len(),
            res@ == v@.subrange(0, i as int),
        decreases v.len() - i,
    {
        push_char(&mut res, v[i]);
        assert(v@.subrange(0, i + 1) =~= v@.subrange(0, i as int).push(v@[i as int]));
        i = i + 1;
    }
    assert(v@.subrange(0, v.len() as int) =~= v@);
    res
}

/// Appends characters to a vector.
pub fn append_chars(dst: &mut Vec<char>, src: &Vec<char>)
    ensures
        final(dst)@ == old(dst)@ + src@,
{
    let mut i: usize = 0;
    while i < src.len()
        invariant
            i <= src.len(),
            dst@ == old(dst)@ + src@.subrange(0, i as int),
        decreases src.len() - i,
    {
        dst.push(src[i]);
        assert(old(dst)@ + src@.subrange(0, i + 1) =~= (old(dst)@ + src@.subrange(
            0,
            i as int,
        )).push(src@[i as int]));
        i = i + 1;
    }
    assert(src@.subrange(0, src.len() as int) =~= src@);
}

/// Appends the characters of a string to a vector.
pub fn append_str(dst: &mut Vec<char>, src: &str)
    ensures
        final(dst)@ == old(dst)@ + src@,
{
    let v = chars_of(src);
    append_chars(dst, &v);
}


/// Whether two character vectors are equal.
pub fn chars_eq(a: &Vec<char>, b: &Vec<char>) -> (res: bool)
    ensures
        res == (a@ == b@),
{
    if a.len() != b.len() {
        return false;
    }
    let mut i: usize = 0;
    while i < a.len()
        invariant
            a.len() == b.len(),
            i <= a.len(),
            forall|j: int| 0 <= j < i ==> a@[j] == b@[j],
        decreases a.len() - i,
    {
        if a[i] != b[i] {
            return false;
        }
        i = i + 1;
    }
    assert(a@ =~= b@);
    true
}

/// Whether two strings are equal.
pub fn str_eq(a: &str, b: &str) -> (res: bool)
    ensures
        res == (a@ == b@),
{
    let av = chars_of(a);
    let bv = chars_of(b);
    chars_eq(&av, &bv)
}


/// `s` holds one of the strings `keys`.
pub open spec fn has_any(s: Seq<char>, keys: Seq<&str>) -> bool {
    exists|i: int| 0 <= i < keys.len() && has_sub(s, #[trigger] keys[i]@)
}

/// Whether `s` holds one of the strings `keys`.
pub fn contains_any(s: &Vec<char>, keys: &[&str]) -> (res: bool)
    ensures
        res == has_any(s@, keys@),
{
    let mut i: usize = 0;
    while i < keys.len()
        invariant
            i <= keys.len(),
            forall|j: int| 0 <= j < i ==> !has_sub(s@, #[trigger] keys@[j]@),
        decreases keys.len() - i,
    {
        if contains_str(s, keys[i]) {
            return true;
        }
        i = i + 1;
    }
    false
}

/// The number that a string of ASCII digits spells.
pub open spec fn digits_value(s: Seq<char>) -> nat
    decreases s.len(),
{
    if s.len() == 0 {
        0
    } else {
        digits_value(s.drop_last()) * 10 + (s.last() as nat - '0' as nat) as nat
    }
}

pub proof fn lemma_digits_value_monotone(s: Seq<char>, i: int)
    requires
        0 <= i <= s.len(),
        forall|j: int| 0 <= j < s.len() ==> is_digit(#[trigger] s[j]),
    ensures
        digits_value(s.subrange(0, i)) <= digits_value(s),
    decreases s.len() - i,
{
    if i < s.len() {
        lemma_digits_value_monotone(s, i + 1);
        assert(s.subrange(0, i + 1).drop_last() =~= s.subrange(0, i));
    } else {
        assert(s.subrange(0, i) =~= s);
    }
}

/// The value of a string of ASCII digits when it is at most `bound`, as
/// `str::parse` reads it; `None` for an empty string or a larger value.
pub fn digits_value_upto(d: &Vec<char>, bound: u64) -> (res: Option<u64>)
    requires
        forall|j: int| 0 <= j < d@.len() ==> is_digit(#[trigger] d@[j]),
    ensures
        match res {
            Some(n) => d@.len() > 0 && n == digits_value(d@) && n <= bound,
            None => d@.len() == 0 || digits_value(d@) > bound,
        },
{
    if d.len() == 0 {
        return None;
    }
    let mut v: u128 = 0;
    let mut i: usize = 0;
    while i < d.len()
        invariant
            i <= d.len(),
            forall|j: int| 0 <= j < d@.len() ==> is_digit(#[trigger] d@[j]),
            v == digits_value(d@.subrange(0, i as int)),
            v <= bound,
        decreases d.len() - i,
    {
        assert(d@.subrange(0, i + 1).drop_last() =~= d@.subrange(0, i as int));
        assert(is_digit(d@[i as int]));
        let digit = (d[i] as u32 - '0' as u32) as u128;
        v = v * 10 + digit;
        if v > bound as u128 {
            proof {
                lemma_digits_value_monotone(d@, i + 1);
            }
            return None;
        }
        i = i + 1;
    }
    assert(d@.subrange(0, d.len() as int) =~= d@);
    Some(v as u64)
}

/// Whether every character of `s` is an ASCII digit.
pub open spec fn all_digits(s: Seq<char>) -> bool {
    forall|j: int| 0 <= j < s.len() ==> is_digit(#[trigger] s[j])
}

/// `u32::from_str` on a string: an optional '+', then at least one ASCII
/// digit, the value fitting in `u32`.
pub open spec fn parse_u32(s: Seq<char>) -> Option<int> {
    let body = if s.len() > 0 && s[0] == '+' {
        s.drop_first()
    } else {
        s
    };
    if body.len() > 0 && all_digits(body) && digits_value(body) <= u32::MAX {
        Some(digits_value(body) as int)
    } else {
        None
    }
}

/// `str::parse::<u32>`.
pub fn parse_u32_exec(s: &Vec<char>) -> (res: Option<u32>)
    ensures
        match res {
            Some(n) => parse_u32(s@) == Some(n as int),
            None => parse_u32(s@) is None,
        },
{
    let body = if s.len() > 0 && s[0] == '+' {
        subvec(s, 1, s.len())
    } else {
        subvec(s, 0, s.len())
    };
    assert(body@ =~= (if s@.len() > 0 && s@[0] == '+' {
        s@.drop_first()
    } else {
        s@
    }));
    let mut i: usize = 0;
    while i < body.len()
        invariant
            i <= body.len(),
            body@ == (if s@.len() > 0 && s@[0] == '+' {
                s@.drop_first()
            } else {
                s@
            }),
            forall|j: int| 0 <= j < i ==> is_digit(#[trigger] body@[j]),
        decreases body.len() - i,
    {
        if !('0' <= body[i] && body[i] <= '9') {
            assert(!is_digit(body@[i as int]));
            assert(!all_digits(body@));
            return None;
        }
        i = i + 1;
    }
    match digits_value_upto(&body, 4294967295) {
        Some(n) => Some(n as u32),
        None => None,
    }
}

/// The longest run of ASCII digits at the start of `s`.
pub open spec fn digit_prefix_len(s: Seq<char>) -> nat
    decreases s.len(),
{
    if s.len() > 0 && is_digit(s[0]) {
        1 + digit_prefix_len(s.drop_first())
    } else {
        0
    }
}

/// The longest run of ASCII digits at the end of `s`.
pub open spec fn digit_suffix_len(s: Seq<char>) -> nat
    decreases s.len(),
{
    if s.len() > 0 && is_digit(s.last()) {
        1 + digit_suffix_len(s.drop_last())
    } else {
        0
    }
}

pub proof fn lemma_digit_prefix_len(s: Seq<char>)
    ensures
        digit_prefix_len(s) <= s.len(),
        all_digits(s.subrange(0, digit_prefix_len(s) as int)),
    decreases s.len(),
{
    if s.len() > 0 && is_digit(s[0]) {
        lemma_digit_prefix_len(s.drop_first());
        let k = digit_prefix_len(s) as int;
        assert forall|j: int| 0 <= j < k implies is_digit(#[trigger] s.subrange(0, k)[j]) by {
            if j > 0 {
                assert(s.subrange(0, k)[j] == s.drop_first().subrange(0, k - 1)[j - 1]);
            }
        }
    }
}

pub proof fn lemma_digit_suffix_len(s: Seq<char>)
    ensures
        digit_suffix_len(s) <= s.len(),
        all_digits(s.subrange(s.len() - digit_suffix_len(s), s.len() as int)),
    decreases s.len(),
{
    if s.len() > 0 && is_digit(s.last()) {
        lemma_digit_suffix_len(s.drop_last());
        let k = digit_suffix_len(s) as int;
        let n = s.len() as int;
        assert forall|j: int| 0 <= j < k implies is_digit(#[trigger] s.subrange(n - k, n)[j]) by {
            if j < k - 1 {
                assert(s.subrange(n - k, n)[j] == s.drop_last().subrange(n - k, n - 1)[j]);
            }
        }
    }
}

/// The run of ASCII digits at the start of `s[from..]`.
pub fn digit_run_from(s: &Vec<char>, from: usize) -> (res: Vec<char>)
    requires
        from <= s.len(),
    ensures
        res@ == s@.subrange(from as int, s.len() as int).subrange(
            0,
            digit_prefix_len(s@.subrange(from as int, s.len() as int)) as int,
        ),
{
    let ghost t = s@.subrange(from as int, s.len() as int);
    let mut e = from;
    while e < s.len() && '0' <= s[e] && s[e] <= '9'
        invariant
            from <= e <= s.len(),
            t == s@.subrange(from as int, s.len() as int),
            digit_prefix_len(t) == (e - from) + digit_prefix_len(
                s@.subrange(e as int, s.len() as int),
            ),
        decreases s.len() - e,
    {
        assert(s@.subrange(e as int, s.len() as int).drop_first() =~= s@.subrange(
            e + 1,
            s.len() as int,
        ));
        e = e + 1;
    }
    assert(t.subrange(0, (e - from) as int) =~= s@.subrange(from as int, e as int));
    subvec(s, from, e)
}

/// The run of ASCII digits at the end of `s[..end]`.
pub fn digit_run_before(s: &Vec<char>, end: usize) -> (res: Vec<char>)
    requires
        end <= s.len(),
    ensures
        res@ == s@.subrange(0, end as int).subrange(
            end - digit_suffix_len(s@.subrange(0, end as int)),
            end as int,
        ),
{
    let ghost t = s@.subrange(0, end as int);
    let mut b = end;
    while b > 0 && '0' <= s[b - 1] && s[b - 1] <= '9'
        invariant
            b <= end <= s.len(),
            t == s@.subrange(0, end as int),
            digit_suffix_len(t) == (end - b) + digit_suffix_len(s@.subrange(0, b as int)),
        decreases b,
    {
        assert(s@.subrange(0, b as int).drop_last() =~= s@.subrange(0, b - 1));
        b = b - 1;
    }
    assert(t.subrange(b as int, end as int) =~= s@.subrange(b as int, end as int));
    subvec(s, b, end)
}

pub proof fn lemma_digits_of_all_digits(s: Seq<char>)
    ensures
        forall|j: int| 0 <= j < digits_of(s).len() ==> is_digit(#[trigger] digits_of(s)[j]),
{
    let f = |c: char| is_digit(c);
    assert forall|j: int| 0 <= j < digits_of(s).len() implies is_digit(
        #[trigger] digits_of(s)[j],
    ) by {
        s.filter_lemma(f);
    }
}


/// The decimal numeral of `n`.
pub open spec fn decimal(n: nat) -> Seq<char>
    decreases n,
{
    if n < 10 {
        seq![(n + '0' as nat) as char]
    } else {
        decimal(n / 10).push(((n % 10) + '0' as nat) as char)
    }
}

/// The decimal numeral of `i`, with a '-' before a negative one.
pub open spec fn decimal_int(i: int) -> Seq<char> {
    if i < 0 {
        seq!['-'] + decimal((-i) as nat)
    } else {
        decimal(i as nat)
    }
}

/// The decimal numeral of `n` (`Display` for unsigned integers).
pub fn u64_decimal(n: u64) -> (res: Vec<char>)
    ensures
        res@ == decimal(n as nat),
    decreases n,
{
    if n < 10 {
        let c = char_of_digit(n);
        let mut v: Vec<char> = Vec::new();
        v.push(c);
        assert(v@ =~= seq![c]);
        v
    } else {
        let mut v = u64_decimal(n / 10);
        v.push(char_of_digit(n % 10));
        v
    }
}

fn char_of_digit(d: u64) -> (c: char)
    requires
        d < 10,
    ensures
        c == (d + '0' as nat) as char,
{
    if d == 0 {
        '0'
    } else if d == 1 {
        '1'
    } else if d == 2 {
        '2'
    } else if d == 3 {
        '3'
    } else if d == 4 {
        '4'
    } else if d == 5 {
        '5'
    } else if d == 6 {
        '6'
    } else if d == 7 {
        '7'
    } else if d == 8 {
        '8'
    } else {
        '9'
    }
}

/// The decimal numeral of `n` (`Display` for signed integers).
pub fn i64_decimal(n: i64) -> (res: Vec<char>)
    ensures
        res@ == decimal_int(n as int),
{
    if n < 0 {
        let m: u64 = (0i128 - n as i128) as u64;
        let digits = u64_decimal(m);
        let mut v: Vec<char> = Vec::new();
        v.push('-');
        append_chars(&mut v, &digits);
        assert(v@ =~= seq!['-'] + decimal((-n) as nat));
        v
    } else {
        u64_decimal(n as u64)
    }
}

/// The strings `parts` with `sep` between each two.
pub open spec fn joined(parts: Seq<Seq<char>>, sep: Seq<char>) -> Seq<char>
    decreases parts.len(),
{
    if parts.len() == 0 {
        Seq::empty()
    } else if parts.len() == 1 {
        parts[0]
    } else {
        joined(parts.drop_last(), sep) + sep + parts.last()
    }
}


pub proof fn lemma_trim_end_prefix(s: Seq<char>)
    ensures
        trim_end(s).len() <= s.len(),
        trim_end(s) =~= s.subrange(0, trim_end(s).len() as int),
        trim_end(s).len() > 0 ==> !is_ws(trim_end(s).last()),
    decreases s.len(),
{
    if s.len() > 0 && is_ws(s.last()) {
        lemma_trim_end_prefix(s.drop_last());
    }
}

pub proof fn lemma_trim_start_first(s: Seq<char>)
    ensures
        trim_start(s).len() > 0 ==> !is_ws(trim_start(s)[0]),
    decreases s.len(),
{
    if s.len() > 0 && is_ws(s[0]) {
        lemma_trim_start_first(s.drop_first());
    }
}

/// Trimming a trimmed text changes nothing.
pub proof fn lemma_trim_idempotent(s: Seq<char>)
    ensures
        trim(trim(s)) == trim(s),
{
    let a = trim_start(s);
    let b = trim_end(a);
    lemma_trim_start_first(s);
    lemma_trim_end_prefix(a);
    if b.len() > 0 {
        assert(b[0] == a[0]);
    }
    assert(trim_start(b) == b);
    lemma_trim_end_prefix(b);
    if b.len() > 0 {
        assert(trim_end(b) == b);
    }
}


/// The pieces `parts` with `sep` between each two, as characters.
pub fn join_chars(parts: &Vec<Vec<char>>, sep: &str) -> (res: Vec<char>)
    ensures
        res@ == joined(parts@.map_values(|p: Vec<char>| p@), sep@),
{
    let ghost views = parts@.map_values(|p: Vec<char>| p@);
    let mut v: Vec<char> = Vec::new();
    let mut i: usize = 0;
    while i < parts.len()
        invariant
            i <= parts.len(),
            views == parts@.map_values(|p: Vec<char>| p@),
            v@ == joined(views.subrange(0, i as int), sep@),
        decreases parts.len() - i,
    {
        assert(views.subrange(0, i + 1).drop_last() =~= views.subrange(0, i as int));
        assert(views.subrange(0, i + 1).last() == parts@[i as int]@);
        if i > 0 {
            append_str(&mut v, sep);
        } else {
            assert(views.subrange(0, 1) =~= seq![parts@[0]@]);
        }
        append_chars(&mut v, &parts[i]);
        i = i + 1;
    }
    assert(views.subrange(0, parts.len() as int) =~= views);
    v
}


/// A trimmed text neither begins nor ends with whitespace.
pub proof fn lemma_trim_ends(s: Seq<char>)
    ensures
        trim(s).len() > 0 ==> !is_ws(trim(s)[0]) && !is_ws(trim(s).last()),
{
    let a = trim_start(s);
    lemma_trim_start_first(s);
    lemma_trim_end_prefix(a);
    if trim(s).len() > 0 {
        assert(trim(s)[0] == a[0]);
    }
}

/// A text that neither begins nor ends with whitespace is its own trim.
pub proof fn lemma_trim_fixed(s: Seq<char>)
    requires
        s.len() > 0,
        !is_ws(s[0]),
        !is_ws(s.last()),
    ensures
        trim(s) == s,
{
}

} // verus!
