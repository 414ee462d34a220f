//! Cookie headers of the Ollama web session: cleaning up what a user pasted,
//! and telling by name which cookies carry a session.

use crate::text::{
    after_prefix, chars_of, equal_ignoring_case, first_index, join, joined, lemma_first_index,
    position, same_ignoring_case, same_text, split, split_text, str_views, string_views,
    strip_ends, strip_prefix, text_view, trim, trimmed, without_ends, CharClass,
};
use vstd::prelude::*;

verus! {

/// The domain whose cookies carry the session.
pub const OLLAMA_COOKIE_DOMAIN: &'static str = "ollama.com";

/// The cookie that a bare pasted value is taken for.
pub const OLLAMA_SESSION_COOKIE_NAME: &'static str = "__Secure-session";

/// The label in front of a copied header, in any case.
pub const COOKIE_LABEL: &'static str = "cookie:";

/// The NextAuth session cookie on secure origins.
pub const SECURE_NEXTAUTH_COOKIE_NAME: &'static str = "__Secure-next-auth.session-token";

/// The NextAuth session cookie on other origins.
pub const NEXTAUTH_COOKIE_NAME: &'static str = "next-auth.session-token";

/// The names that mark a session cookie as they stand.
pub open spec fn session_cookie_names() -> Seq<Seq<char>> {
    seq![
        "session"@,
        OLLAMA_SESSION_COOKIE_NAME@,
        "ollama_session"@,
        "__Host-ollama_session"@,
        "wos-session"@,
        SECURE_NEXTAUTH_COOKIE_NAME@,
        NEXTAUTH_COOKIE_NAME@,
    ]
}

/// One or more ASCII digits.
pub open spec fn is_digits(s: Seq<char>) -> bool {
    &&& s.len() > 0
    &&& forall|i: int| 0 <= i < s.len() ==> '0' <= #[trigger] s[i] && s[i] <= '9'
}

/// `base`, a dot and a chunk number.
pub open spec fn is_chunk_name(name: Seq<char>, base: Seq<char>) -> bool {
    match after_prefix(name, base.push('.')) {
        Some(chunk) => is_digits(chunk),
        None => false,
    }
}

/// The names that mark a session cookie, chunks of a NextAuth token included.
pub open spec fn is_session_name(name: Seq<char>) -> bool {
    ||| session_cookie_names().contains(name)
    ||| is_chunk_name(name, SECURE_NEXTAUTH_COOKIE_NAME@)
    ||| is_chunk_name(name, NEXTAUTH_COOKIE_NAME@)
}

/// The name in a `name=value` pair of a header; none where there is no `=`.
pub open spec fn pair_name(pair: Seq<char>) -> Option<Seq<char>> {
    let p = trimmed(pair);
    if p.contains('=') {
        Some(trimmed(p.take(first_index(p, '=') as int)))
    } else {
        None
    }
}

/// A pair of a header whose name marks a session cookie.
pub open spec fn is_session_pair(pair: Seq<char>) -> bool {
    match pair_name(pair) {
        Some(name) => is_session_name(name),
        None => false,
    }
}

/// A header with a session cookie among its pairs.
pub open spec fn carries_session(header: Seq<char>) -> bool {
    exists|i: int| 0 <= i < split(header, ';').len() && is_session_pair(#[trigger] split(header, ';')[i])
}

/// The text without a leading cURL option, if it starts with that one.
pub open spec fn without_option(s: Seq<char>, option: Seq<char>) -> Seq<char> {
    match after_prefix(s, option) {
        Some(rest) => trimmed(rest),
        None => s,
    }
}

/// The text without copied cURL options and the quotes around it.
pub open spec fn without_curl_wrapper(raw: Seq<char>) -> Seq<char> {
    let h = trimmed(raw);
    let h = without_option(h, "-b "@);
    let h = without_option(h, "--cookie "@);
    let h = without_option(h, "-H "@);
    trimmed(strip_ends(strip_ends(h, CharClass::Only('\'')), CharClass::Only('"')))
}

/// Whether the text starts with the `Cookie:` label, in any case.
pub open spec fn has_label(s: Seq<char>) -> bool {
    &&& s.len() >= COOKIE_LABEL@.len()
    &&& same_ignoring_case(s.take(COOKIE_LABEL@.len() as int), COOKIE_LABEL@)
}

/// The text without a leading `Cookie:` label.
pub open spec fn without_label(s: Seq<char>) -> Seq<char> {
    if has_label(s) {
        trimmed(s.skip(COOKIE_LABEL@.len() as int))
    } else {
        s
    }
}

/// The segments of a header, each trimmed and without label, empty ones left
/// out.
pub open spec fn clean_segments(header: Seq<char>) -> Seq<Seq<char>> {
    cleaned(split(header, ';'))
}

/// The segments in order, each trimmed and without label, empty ones left out.
pub open spec fn cleaned(segments: Seq<Seq<char>>) -> Seq<Seq<char>>
    decreases segments.len(),
{
    if segments.len() == 0 {
        seq![]
    } else {
        let last = without_label(trimmed(segments.last()));
        if last.len() == 0 {
            cleaned(segments.drop_last())
        } else {
            cleaned(segments.drop_last()).push(last)
        }
    }
}

/// The header that a pasted text stands for, if it stands for one.
pub open spec fn normalized(input: Seq<char>) -> Option<Seq<char>> {
    let unwrapped = without_curl_wrapper(input);
    let header = without_label(unwrapped);
    if unwrapped.len() == 0 || header.len() == 0 {
        None
    } else if header.contains('=') {
        let clean = joined(clean_segments(header), "; "@);
        if clean.len() == 0 {
            None
        } else {
            Some(clean)
        }
    } else {
        Some(OLLAMA_SESSION_COOKIE_NAME@ + seq!['='] + header)
    }
}

fn drop_option<'a>(s: &'a str, option: &str) -> (r: &'a str)
    ensures
        r@ == without_option(s@, option@),
{
    match strip_prefix(s, option) {
        Some(rest) => trim(rest),
        None => s,
    }
}

/// Strips copied cURL cookie syntax (`-b`, `--cookie`, `-H`) and the quotes
/// around the value.
pub fn strip_curl_cookie_wrapper<'a>(raw: &'a str) -> (r: &'a str)
    ensures
        r@ == without_curl_wrapper(raw@),
{
    let header: &'a str = trim(raw);
    let header: &'a str = drop_option(header, "-b ");
    let header: &'a str = drop_option(header, "--cookie ");
    let header: &'a str = drop_option(header, "-H ");
    let header: &'a str = without_ends(header, CharClass::Only('\''));
    trim(without_ends(header, CharClass::Only('"')))
}

fn drop_label<'a>(s: &'a str) -> (r: &'a str)
    ensures
        r@ == without_label(s@),
{
    let n: usize = chars_of(COOKIE_LABEL).len();
    let len: usize = chars_of(s).len();
    if len < n {
        return s;
    }
    let head: &'a str = s.substring_char(0, n);
    assert(head@ =~= s@.take(n as int));
    if equal_ignoring_case(head, COOKIE_LABEL) {
        let rest: &'a str = s.substring_char(n, len);
        assert(rest@ =~= s@.skip(n as int));
        trim(rest)
    } else {
        s
    }
}

fn clean_header(header: &str) -> (r: String)
    ensures
        r@ == joined(clean_segments(header@), "; "@),
{
    let segments: Vec<&str> = split_text(header, ';');
    let mut kept: Vec<String> = Vec::new();
    let ghost views = str_views(segments@);
    let mut i: usize = 0;
    while i < segments.len()
        invariant
            views == str_views(segments@),
            i <= segments@.len(),
            string_views(kept@) == cleaned(views.take(i as int)),
        decreases segments@.len() - i,
    {
        let segment: &str = drop_label(trim(segments[i]));
        let ghost before = kept@;
        proof {
            assert(views.take(i + 1).drop_last() =~= views.take(i as int));
            assert(views.take(i + 1).last() == segments@[i as int]@);
        }
        if !segment.is_empty() {
            kept.push(segment.to_string());
            assert(string_views(kept@) =~= string_views(before).push(segment@));
        }
        i += 1;
    }
    assert(views.take(i as int) =~= views);
    join(&kept, "; ")
}

/// Normalizes a pasted cookie header: strips cURL wrappers and `Cookie:` labels,
/// and takes a bare value for that of the session cookie.
pub fn normalize_cookie_header(input: &str) -> (r: Option<String>)
    ensures
        text_view(r) == normalized(input@),
{
    let unwrapped: &str = strip_curl_cookie_wrapper(input);
    if unwrapped.is_empty() {
        return None;
    }
    let header: &str = drop_label(unwrapped);
    if header.is_empty() {
        return None;
    }
    let chars: Vec<char> = chars_of(header);
    proof {
        lemma_first_index(header@, '=');
    }
    if position(&chars, '=') < chars.len() {
        let clean: String = clean_header(header);
        if clean.as_str().is_empty() {
            None
        } else {
            Some(clean)
        }
    } else {
        let mut named: String = OLLAMA_SESSION_COOKIE_NAME.to_string();
        named.append("=");
        named.append(header);
        proof {
            reveal_strlit("=");
            assert("="@ =~= seq!['=']);
        }
        Some(named)
    }
}

/// Whether the name is `base_name`, a dot and a chunk number.
pub fn is_chunked_nextauth_cookie_name(name: &str, base_name: &str) -> (r: bool)
    ensures
        r == is_chunk_name(name@, base_name@),
{
    let mut stem: String = base_name.to_string();
    stem.append(".");
    proof {
        reveal_strlit(".");
        assert(base_name@ + "."@ =~= base_name@.push('.'));
    }
    match strip_prefix(name, stem.as_str()) {
        Some(chunk) => {
            let chars: Vec<char> = chars_of(chunk);
            let mut i: usize = 0;
            while i < chars.len()
                invariant
                    chars@ == chunk@,
                    i <= chars@.len(),
                    forall|j: int| 0 <= j < i ==> '0' <= #[trigger] chars@[j] && chars@[j] <= '9',
                    after_prefix(name@, base_name@.push('.')) == Some(chunk@),
                decreases chars@.len() - i,
            {
                if chars[i] < '0' || chars[i] > '9' {
                    return false;
                }
                i += 1;
            }
            chars.len() > 0
        },
        None => false,
    }
}

/// Whether a cookie of this name carries the session.
pub fn is_recognized_ollama_session_cookie_name(name: &str) -> (r: bool)
    ensures
        r == is_session_name(name@),
{
    proof {
        let names = session_cookie_names();
        assert(names[0] == "session"@);
        assert(names[1] == OLLAMA_SESSION_COOKIE_NAME@);
        assert(names[2] == "ollama_session"@);
        assert(names[3] == "__Host-ollama_session"@);
        assert(names[4] == "wos-session"@);
        assert(names[5] == SECURE_NEXTAUTH_COOKIE_NAME@);
        assert(names[6] == NEXTAUTH_COOKIE_NAME@);
    }
    same_text(name, "session") || same_text(name, OLLAMA_SESSION_COOKIE_NAME) || same_text(
        name,
        "ollama_session",
    ) || same_text(name, "__Host-ollama_session") || same_text(name, "wos-session") || same_text(
        name,
        SECURE_NEXTAUTH_COOKIE_NAME,
    ) || same_text(name, NEXTAUTH_COOKIE_NAME) || is_chunked_nextauth_cookie_name(
        name,
        SECURE_NEXTAUTH_COOKIE_NAME,
    ) || is_chunked_nextauth_cookie_name(name, NEXTAUTH_COOKIE_NAME)
}

fn names_session(pair: &str) -> (r: bool)
    ensures
        r == is_session_pair(pair@),
{
    let p: &str = trim(pair);
    let chars: Vec<char> = chars_of(p);
    let at: usize = position(&chars, '=');
    proof {
        lemma_first_index(p@, '=');
    }
    if at < chars.len() {
        let name: &str = p.substring_char(0, at);
        assert(name@ =~= p@.take(at as int));
        is_recognized_ollama_session_cookie_name(trim(name))
    } else {
        false
    }
}

/// Whether a session cookie is among the pairs of the header.
pub fn has_recognized_ollama_session_cookie(header: &str) -> (r: bool)
    ensures
        r == carries_session(header@),
{
    let pairs: Vec<&str> = split_text(header, ';');
    let ghost views = split(header@, ';');
    let mut i: usize = 0;
    while i < pairs.len()
        invariant
            views == split(header@, ';'),
            str_views(pairs@) == views,
            i <= pairs@.len(),
            forall|j: int| 0 <= j < i ==> !is_session_pair(#[trigger] views[j]),
        decreases pairs@.len() - i,
    {
        assert(views[i as int] == pairs@[i as int]@);
        if names_session(pairs[i]) {
            return true;
        }
        i += 1;
    }
    false
}

} // verus!
