//! The parts of a URL that decide where a session may go.

use crate::session_cookies::OLLAMA_COOKIE_DOMAIN;
use crate::text::{
    chars_contain, chars_end_with, chars_equal, chars_start_with, equal_ignoring_case, lower_chars,
    lowered, occurs_in, same_ignoring_case, same_text,
};
use vstd::prelude::*;

verus! {

/// Scheme, host and path of a parsed URL.
#[derive(Debug)]
pub struct SiteUrl {
    pub scheme: String,
    pub host: Option<String>,
    pub path: String,
}

/// The model of a [`SiteUrl`].
pub struct UrlView {
    pub scheme: Seq<char>,
    pub host: Option<Seq<char>>,
    pub path: Seq<char>,
}

impl View for SiteUrl {
    type V = UrlView;

    open spec fn view(&self) -> UrlView {
        UrlView {
            scheme: self.scheme@,
            host: match self.host {
                Some(h) => Some(h@),
                None => None,
            },
            path: self.path@,
        }
    }
}

/// What `reqwest::Url::parse` makes of a text: scheme, host and path of the
/// URL, or the error's message.
pub uninterp spec fn parsed_url(text: Seq<char>) -> Result<UrlView, Seq<char>>;

/// Calls `reqwest::Url::parse` and copies out `scheme`, `host_str` and `path`
/// of the URL, or the text of the error. Claimed: the outcome depends on the
/// text alone.
#[verifier::external_body]
fn parse_parts(text: &str) -> (r: Result<SiteUrl, String>)
    ensures
        match r {
            Ok(url) => parsed_url(text@) == Ok::<UrlView, Seq<char>>(url@),
            Err(message) => parsed_url(text@) == Err::<UrlView, Seq<char>>(message@),
        },
{
    match reqwest::Url::parse(text) {
        Ok(url) => Ok(
            SiteUrl {
                scheme: url.scheme().to_string(),
                host: url.host_str().map(|host| host.to_string()),
                path: url.path().to_string(),
            },
        ),
        Err(error) => Err(error.to_string()),
    }
}

/// Whether a session cookie may go to the URL: https, and exactly the cookie
/// domain.
pub open spec fn attaches(url: UrlView) -> bool {
    &&& url.scheme == "https"@
    &&& match url.host {
        Some(host) => same_ignoring_case(host, OLLAMA_COOKIE_DOMAIN@),
        None => false,
    }
}

/// Whether a redirect to the URL asks for a sign-in.
pub open spec fn asks_sign_in(url: UrlView) -> bool {
    &&& url.scheme == "https"@
    &&& match url.host {
        None => false,
        Some(host) => {
            let h = lowered(host);
            let p = lowered(url.path);
            if h == OLLAMA_COOKIE_DOMAIN@ || h == "www.ollama.com"@ {
                ||| p == "/signin"@
                ||| "/signin/"@.is_prefix_of(p)
                ||| occurs_in("/login"@, p)
            } else {
                ||| h == "signin.ollama.com"@
                ||| ".workos.com"@.is_suffix_of(h) && "/user_management/authorize"@.is_prefix_of(p)
            }
        },
    }
}

impl SiteUrl {
    /// Parses an absolute URL; the error is the parser's message.
    pub fn parse(text: &str) -> (r: Result<SiteUrl, String>)
        ensures
            match r {
                Ok(url) => parsed_url(text@) == Ok::<UrlView, Seq<char>>(url@),
                Err(message) => parsed_url(text@) == Err::<UrlView, Seq<char>>(message@),
            },
    {
        parse_parts(text)
    }
}

/// Whether the session cookie may be attached to a request for the URL.
pub fn should_attach_ollama_cookie(url: &SiteUrl) -> (r: bool)
    ensures
        r == attaches(url@),
{
    same_text(url.scheme.as_str(), "https") && match &url.host {
        Some(host) => equal_ignoring_case(host.as_str(), OLLAMA_COOKIE_DOMAIN),
        None => false,
    }
}

/// Whether being redirected to the URL means that the session has expired.
pub fn is_ollama_sign_in_redirect(url: &SiteUrl) -> (r: bool)
    ensures
        r == asks_sign_in(url@),
{
    if !same_text(url.scheme.as_str(), "https") {
        return false;
    }
    match &url.host {
        None => false,
        Some(host) => {
            let host: Vec<char> = lower_chars(host.as_str());
            let path: Vec<char> = lower_chars(url.path.as_str());
            if chars_equal(&host, OLLAMA_COOKIE_DOMAIN) || chars_equal(&host, "www.ollama.com") {
                return chars_equal(&path, "/signin") || chars_start_with(&path, "/signin/")
                    || chars_contain(&path, "/login");
            }
            chars_equal(&host, "signin.ollama.com") || (chars_end_with(&host, ".workos.com")
                && chars_start_with(&path, "/user_management/authorize"))
        },
    }
}

} // verus!
