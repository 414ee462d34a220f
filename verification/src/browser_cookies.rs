//! Cookies read from a browser, and the header they make up for a URL.

use crate::session_cookies::{
    carries_session, has_recognized_ollama_session_cookie, OLLAMA_COOKIE_DOMAIN,
};
use crate::site_url::{attaches, should_attach_ollama_cookie, SiteUrl, UrlView};
use crate::text::{
    chars_equal, chars_of, chars_start_with, join, joined, lower_chars, lowered, same_text,
    string_views, strip_back, text_view, trim, trimmed, without_back, CharClass,
};
use vstd::prelude::*;

verus! {

/// A cookie as a browser stores it.
#[derive(Debug)]
pub struct Cookie {
    pub name: String,
    pub value: String,
    pub domain: String,
    pub path: String,
    /// When it expires, in seconds since 1970; never for a session cookie.
    pub expires: Option<i64>,
    pub is_secure: bool,
    pub is_http_only: bool,
}

impl Clone for Cookie {
    fn clone(&self) -> (r: Cookie)
        ensures
            r == *self,
    {
        Cookie {
            name: self.name.clone(),
            value: self.value.clone(),
            domain: self.domain.clone(),
            path: self.path.clone(),
            expires: self.expires,
            is_secure: self.is_secure,
            is_http_only: self.is_http_only,
        }
    }
}

/// Whether a cookie of this domain belongs to the session's site.
pub open spec fn domain_matches(domain: Seq<char>) -> bool {
    let d = lowered(strip_back(trimmed(domain), CharClass::Only('.')));
    d == OLLAMA_COOKIE_DOMAIN@ || d == seq!['.'] + OLLAMA_COOKIE_DOMAIN@
}

/// Whether a cookie of this path goes with a request for `request_path`.
pub open spec fn path_matches(cookie_path: Seq<char>, request_path: Seq<char>) -> bool {
    let path = if cookie_path.len() == 0 {
        "/"@
    } else {
        cookie_path
    };
    ||| path == "/"@
    ||| request_path == path
    ||| path.is_prefix_of(request_path) && (path.last() == '/' || (path.len() < request_path.len()
        && request_path[path.len() as int] == '/'))
}

/// Whether the cookie goes with a request for the URL.
pub open spec fn applies(cookie: Cookie, url: UrlView) -> bool {
    attaches(url) && domain_matches(cookie.domain@) && path_matches(cookie.path@, url.path)
}

/// The cookies that go with a request for the URL, in order.
pub open spec fn applicable(cookies: Seq<Cookie>, url: UrlView) -> Seq<Cookie> {
    cookies.filter(|c: Cookie| applies(c, url))
}

/// The `name=value` pair of a cookie.
pub open spec fn pair_of(cookie: Cookie) -> Seq<char> {
    cookie.name@ + seq!['='] + cookie.value@
}

/// The cookie header with these cookies.
pub open spec fn header_of(cookies: Seq<Cookie>) -> Seq<char> {
    joined(cookies.map_values(|c: Cookie| pair_of(c)), "; "@)
}

/// The header for the URL, if it carries a session.
pub open spec fn session_header(cookies: Seq<Cookie>, url: UrlView) -> Option<Seq<char>> {
    let header = header_of(applicable(cookies, url));
    if carries_session(header) {
        Some(header)
    } else {
        None
    }
}

/// The header of the first set of cookies that carries a session for the URL.
pub open spec fn first_session_header(sets: Seq<Vec<Cookie>>, url: UrlView) -> Option<Seq<char>>
    decreases sets.len(),
{
    if sets.len() == 0 {
        None
    } else {
        match session_header(sets[0]@, url) {
            Some(header) => Some(header),
            None => first_session_header(sets.skip(1), url),
        }
    }
}

/// Whether the cookie goes with a request for the URL: the right site, and its
/// path covers the URL's.
pub fn cookie_applies_to_ollama_url(cookie: &Cookie, url: &SiteUrl) -> (r: bool)
    ensures
        r == applies(*cookie, url@),
{
    proof {
        reveal_strlit("/");
        reveal_strlit("ollama.com");
        reveal_strlit(".ollama.com");
        assert(".ollama.com"@ =~= seq!['.'] + OLLAMA_COOKIE_DOMAIN@);
    }
    let domain: Vec<char> = lower_chars(
        without_back(trim(cookie.domain.as_str()), CharClass::Only('.')),
    );
    let path: &str = if cookie.path.as_str().is_empty() {
        "/"
    } else {
        cookie.path.as_str()
    };
    if !should_attach_ollama_cookie(url) {
        return false;
    }
    if !chars_equal(&domain, OLLAMA_COOKIE_DOMAIN) && !chars_equal(&domain, ".ollama.com") {
        return false;
    }
    if same_text(path, "/") || same_text(url.path.as_str(), path) {
        return true;
    }
    let covering: Vec<char> = chars_of(path);
    let requested: Vec<char> = chars_of(url.path.as_str());
    chars_start_with(&requested, path) && (covering[covering.len() - 1] == '/' || (covering.len()
        < requested.len() && requested[covering.len()] == '/'))
}

/// The cookie header with these cookies: `name=value` pairs, in order. That `; `
/// separates them is this library's choice, after the syntax of the `Cookie`
/// header.
pub fn build_cookie_header(cookies: &Vec<Cookie>) -> (r: String)
    ensures
        r@ == header_of(cookies@),
{
    let mut pairs: Vec<String> = Vec::new();
    let ghost all = cookies@.map_values(|c: Cookie| pair_of(c));
    let mut i: usize = 0;
    while i < cookies.len()
        invariant
            all == cookies@.map_values(|c: Cookie| pair_of(c)),
            i <= cookies@.len(),
            string_views(pairs@) == all.take(i as int),
        decreases cookies@.len() - i,
    {
        let ghost before = pairs@;
        let mut pair: String = cookies[i].name.clone();
        pair.append("=");
        pair.append(cookies[i].value.as_str());
        proof {
            reveal_strlit("=");
            assert("="@ =~= seq!['=']);
        }
        pairs.push(pair);
        assert(string_views(pairs@) =~= string_views(before).push(pair_of(cookies@[i as int])));
        assert(all.take(i + 1) =~= all.take(i as int).push(all[i as int]));
        i += 1;
    }
    assert(all.take(i as int) =~= all);
    join(&pairs, "; ")
}

/// The header for a request for the URL, if the cookies that go with it carry
/// a session.
pub fn ollama_cookie_header_for_url(cookies: &Vec<Cookie>, url: &SiteUrl) -> (r: Option<String>)
    ensures
        text_view(r) == session_header(cookies@, url@),
{
    let mut kept: Vec<Cookie> = Vec::new();
    let ghost p = |c: Cookie| applies(c, url@);
    let mut i: usize = 0;
    assert(cookies@.take(0).filter(p) =~= seq![]) by {
        reveal(Seq::filter);
    }
    while i < cookies.len()
        invariant
            p == (|c: Cookie| applies(c, url@)),
            i <= cookies@.len(),
            kept@ == cookies@.take(i as int).filter(p),
        decreases cookies@.len() - i,
    {
        proof {
            assert(cookies@.take(i + 1) =~= cookies@.take(i as int).push(cookies@[i as int]));
            cookies@.take(i as int).lemma_filter_push(cookies@[i as int], p);
        }
        if cookie_applies_to_ollama_url(&cookies[i], url) {
            kept.push(cookies[i].clone());
        }
        i += 1;
    }
    assert(cookies@.take(i as int) =~= cookies@);
    let header: String = build_cookie_header(&kept);
    if has_recognized_ollama_session_cookie(header.as_str()) {
        Some(header)
    } else {
        None
    }
}

/// The header of the first set of cookies, in order, that carries a session
/// for the URL; sets without a usable session are passed over.
pub fn first_recognized_cookie_header(
    cookie_sets: &Vec<Vec<Cookie>>,
    url: &SiteUrl,
) -> (r: Option<String>)
    ensures
        text_view(r) == first_session_header(cookie_sets@, url@),
{
    let mut i: usize = 0;
    assert(cookie_sets@.skip(0) =~= cookie_sets@);
    while i < cookie_sets.len()
        invariant
            i <= cookie_sets@.len(),
            first_session_header(cookie_sets@, url@) == first_session_header(
                cookie_sets@.skip(i as int),
                url@,
            ),
        decreases cookie_sets@.len() - i,
    {
        match ollama_cookie_header_for_url(&cookie_sets[i], url) {
            Some(header) => return Some(header),
            None => {
                assert(cookie_sets@.skip(i as int).skip(1) =~= cookie_sets@.skip(i + 1));
                i += 1;
            },
        }
    }
    None
}

} // verus!
