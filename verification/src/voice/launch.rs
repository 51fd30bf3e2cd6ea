//! Addresses to open, searches, and how an application command is started.
use crate::text::{
    append_chars, append_str, chars_of, find_first, has_prefix, split_once,
    split_once_str, starts_with_str, string_of, trim, trimmed_chars,
};
use vstd::prelude::*;

verus! {

/// A byte that `urlencode` keeps as it is.
pub open spec fn unreserved(b: u8) -> bool {
    ('A' as u8 <= b <= 'Z' as u8) || ('a' as u8 <= b <= 'z' as u8) || ('0' as u8 <= b <= '9'
        as u8) || b == '-' as u8 || b == '_' as u8 || b == '.' as u8 || b == '~' as u8
}

pub open spec fn hex_upper(n: u8) -> char {
    if n < 10 {
        ((n + '0' as u8) as u8) as char
    } else {
        ((n - 10 + 'A' as u8) as u8) as char
    }
}

/// One byte, percent-encoded unless it is unreserved.
pub open spec fn encoded_byte(b: u8) -> Seq<char> {
    if unreserved(b) {
        seq![b as char]
    } else {
        seq!['%', hex_upper(b / 16), hex_upper(b % 16)]
    }
}

pub open spec fn encoded_bytes(bytes: Seq<u8>) -> Seq<char>
    decreases bytes.len(),
{
    if bytes.len() == 0 {
        Seq::empty()
    } else {
        encoded_bytes(bytes.drop_last()) + encoded_byte(bytes.last())
    }
}

fn hex_digit(n: u8) -> (c: char)
    requires
        n < 16,
    ensures
        c == hex_upper(n),
{
    if n < 10 {
        (n + '0' as u8) as char
    } else {
        (n - 10 + 'A' as u8) as char
    }
}

/// The UTF-8 bytes of `s`, percent-encoded except letters, digits and
/// "-_.~".
pub fn urlencode(s: &str) -> (res: String)
    ensures
        res@ == encoded_bytes(vstd::utf8::encode_utf8(s@)),
{
    let bytes = s.as_bytes();
    let mut out: Vec<char> = Vec::new();
    let mut i: usize = 0;
    while i < bytes.len()
        invariant
            i <= bytes.len(),
            bytes@ == vstd::utf8::encode_utf8(s@),
            out@ == encoded_bytes(bytes@.subrange(0, i as int)),
        decreases bytes.len() - i,
    {
        assert(bytes@.subrange(0, i + 1).drop_last() =~= bytes@.subrange(0, i as int));
        let b = bytes[i];
        if (65 <= b && b <= 90) || (97 <= b && b <= 122) || (48 <= b && b <= 57) || b == 45 || b
            == 95 || b == 46 || b == 126 {
            out.push(b as char);
        } else {
            out.push('%');
            out.push(hex_digit(b / 16));
            out.push(hex_digit(b % 16));
            assert(out@ =~= encoded_bytes(bytes@.subrange(0, i as int)) + seq![
                '%',
                hex_upper(b / 16),
                hex_upper(b % 16),
            ]);
        }
        i = i + 1;
    }
    assert(bytes@.subrange(0, bytes.len() as int) =~= bytes@);
    string_of(&out)
}

proof fn lemma_encoded_ascii(bytes: Seq<u8>)
    ensures
        forall|i: int|
            0 <= i < encoded_bytes(bytes).len() ==> (#[trigger] encoded_bytes(bytes)[i] as u32)
                < 0x80,
    decreases bytes.len(),
{
    if bytes.len() > 0 {
        lemma_encoded_ascii(bytes.drop_last());
        let b = bytes.last();
        assert(b / 16 < 16 && b % 16 < 16);
        let prev = encoded_bytes(bytes.drop_last());
        let e = encoded_byte(b);
        assert forall|i: int| 0 <= i < e.len() implies (#[trigger] e[i] as u32) < 0x80 by {
            if !unreserved(b) {
                assert(e == seq!['%', hex_upper(b / 16), hex_upper(b % 16)]);
            }
        }
        assert forall|i: int|
            0 <= i < encoded_bytes(bytes).len() implies (#[trigger] encoded_bytes(bytes)[i] as u32)
            < 0x80 by {
            if i < prev.len() {
                assert(encoded_bytes(bytes)[i] == prev[i]);
            } else {
                assert(encoded_bytes(bytes)[i] == e[i - prev.len()]);
            }
        }
    }
}

/// An encoded query is plain ASCII, whatever the text.
pub proof fn law_urlencode_is_ascii(s: Seq<char>)
    ensures
        forall|i: int|
            0 <= i < encoded_bytes(vstd::utf8::encode_utf8(s)).len() ==> (
            #[trigger] encoded_bytes(vstd::utf8::encode_utf8(s))[i] as u32) < 0x80,
{
    lemma_encoded_ascii(vstd::utf8::encode_utf8(s));
}

/// What `validate_url` gives: an address with a scheme, when it is http or
/// https with a host holding a '.'.
pub open spec fn validated_url(input: Seq<char>) -> Result<Seq<char>, Seq<char>> {
    let s = trim(input);
    if s.len() == 0 {
        Err("地址格式不正确"@)
    } else {
        let with_proto = if has_prefix(s, "http://"@) || has_prefix(s, "https://"@) {
            s
        } else {
            "https://"@ + s
        };
        if !(has_prefix(with_proto, "http://"@) || has_prefix(with_proto, "https://"@)) {
            Err("不支持打开这个地址"@)
        } else {
            let after = match split_once(with_proto, "://"@) {
                Some((_, r)) => r,
                None => Seq::empty(),
            };
            if after.len() == 0 || !after.contains('.') {
                Err("不支持打开这个地址"@)
            } else {
                Ok(with_proto)
            }
        }
    }
}

/// A checked address passes the check again unchanged.
pub proof fn law_validate_url_idempotent(input: Seq<char>)
    requires
        validated_url(input) is Ok,
    ensures
        validated_url(validated_url(input)->Ok_0) == validated_url(input),
{
    let s = trim(input);
    let u = validated_url(input)->Ok_0;
    crate::text::lemma_trim_ends(input);
    if has_prefix(s, "http://"@) || has_prefix(s, "https://"@) {
        crate::text::lemma_trim_idempotent(input);
        assert(u == s);
    } else {
        reveal_strlit("https://");
        assert(u == "https://"@ + s);
        assert(u[0] == 'h');
        assert(u.last() == s.last());
        crate::text::lemma_trim_fixed(u);
        assert(u.subrange(0, 8) =~= "https://"@);
        assert(has_prefix(u, "https://"@));
    }
}

/// Only http and https addresses with a host pass the check.
pub proof fn law_validated_url_is_web(input: Seq<char>)
    requires
        validated_url(input) is Ok,
    ensures
        has_prefix(validated_url(input)->Ok_0, "http://"@) || has_prefix(
            validated_url(input)->Ok_0,
            "https://"@,
        ),
        validated_url(input)->Ok_0.contains('.'),
{
    let u = validated_url(input)->Ok_0;
    crate::text::lemma_find_first(u, "://"@);
    let k = find_first(u, "://"@)->0;
    let after = u.subrange(k + 3, u.len() as int);
    reveal_strlit("://");
    let parts = split_once(u, "://"@)->0;
    assert(after =~= parts.1);
    let j = choose|j: int| 0 <= j < after.len() && after[j] == '.';
    assert(u[k + 3 + j] == '.');
}

pub open spec fn result_view(r: Result<String, String>) -> Result<Seq<char>, Seq<char>> {
    match r {
        Ok(s) => Ok(s@),
        Err(e) => Err(e@),
    }
}

/// Checks an address (http or https with a host), adding "https://" when
/// it has no scheme.
pub fn validate_url(input: &str) -> (res: Result<String, String>)
    ensures
        result_view(res) == validated_url(input@),
{
    let s = trimmed_chars(input);
    if s.len() == 0 {
        let e = chars_of("地址格式不正确");
        return Err(string_of(&e));
    }
    let with_proto = if starts_with_str(&s, "http://") || starts_with_str(&s, "https://") {
        s
    } else {
        let mut v = chars_of("https://");
        append_chars(&mut v, &s);
        v
    };
    if !(starts_with_str(&with_proto, "http://") || starts_with_str(&with_proto, "https://")) {
        let e = chars_of("不支持打开这个地址");
        return Err(string_of(&e));
    }
    let after: Vec<char> = match split_once_str(&with_proto, "://") {
        Some((_, r)) => r,
        None => Vec::new(),
    };
    if after.len() == 0 || !crate::text::contains_char(&after, '.') {
        let e = chars_of("不支持打开这个地址");
        return Err(string_of(&e));
    }
    Ok(string_of(&with_proto))
}

/// The Bing search for `query`, as a checked address (or the reason it was
/// refused).
pub open spec fn search_url(query: Seq<char>) -> Result<Seq<char>, Seq<char>> {
    validated_url("https://www.bing.com/search?q="@ + encoded_bytes(
        vstd::utf8::encode_utf8(query),
    ))
}

/// The address that searching for `query` opens.
pub fn search(query: &str) -> (res: Result<String, String>)
    ensures
        result_view(res) == search_url(query@),
{
    let encoded = urlencode(query);
    let mut url = chars_of("https://www.bing.com/search?q=");
    append_str(&mut url, encoded.as_str());
    let u = string_of(&url);
    validate_url(u.as_str())
}

/// How an application command is started.
#[derive(Debug, Clone, PartialEq, Eq)]
pub enum LaunchPlan {
    /// An http(s) address: open it.
    OpenUrl(String),
    /// A store application (its id holds '!'): activate `target` with the
    /// shell.
    ShellApp(String),
    /// Anything else: run it as a program.
    Spawn(String),
}

pub fn launch_plan(command: &str) -> (res: LaunchPlan)
    ensures
        match res {
            LaunchPlan::OpenUrl(u) => (has_prefix(command@, "http://"@) || has_prefix(
                command@,
                "https://"@,
            )) && u@ == command@,
            LaunchPlan::ShellApp(t) => !(has_prefix(command@, "http://"@) || has_prefix(
                command@,
                "https://"@,
            )) && command@.contains('!') && t@ == "shell:AppsFolder\\"@ + command@,
            LaunchPlan::Spawn(c) => !(has_prefix(command@, "http://"@) || has_prefix(
                command@,
                "https://"@,
            )) && !command@.contains('!') && c@ == command@,
        },
{
    let v = chars_of(command);
    if starts_with_str(&v, "http://") || starts_with_str(&v, "https://") {
        return LaunchPlan::OpenUrl(string_of(&v));
    }
    if crate::text::contains_char(&v, '!') {
        let mut t = chars_of("shell:AppsFolder\\");
        append_chars(&mut t, &v);
        return LaunchPlan::ShellApp(string_of(&t));
    }
    LaunchPlan::Spawn(string_of(&v))
}

} // verus!
