//! Where the session of an account slot comes from: a pasted header, the header
//! that was validated last, or the cookies of an installed browser.

use crate::browser_cookies::{ollama_cookie_header_for_url, session_header, Cookie};
use crate::context::FetchContext;
use crate::error::ProviderError;
use crate::session_cookies::{
    carries_session, has_recognized_ollama_session_cookie, normalize_cookie_header, normalized,
};
use crate::site_url::{attaches, parsed_url, should_attach_ollama_cookie, SiteUrl, UrlView};
use crate::text::text_view;
use vstd::prelude::*;

verus! {

/// The page that a session is validated against.
pub const OLLAMA_SETTINGS_URL: &'static str = "https://ollama.com/settings";

/// The cookies of a session.
#[derive(Debug)]
pub enum OllamaCookieSource {
    /// A header that is sent as it is.
    Manual(String),
    /// Cookies of which the fitting ones are sent.
    Browser(Vec<Cookie>),
}

/// The header of a source for a URL.
pub open spec fn source_header(source: OllamaCookieSource, url: UrlView) -> Option<Seq<char>> {
    match source {
        OllamaCookieSource::Manual(header) => if attaches(url) {
            Some(header@)
        } else {
            None
        },
        OllamaCookieSource::Browser(cookies) => session_header(cookies@, url),
    }
}

impl OllamaCookieSource {
    /// The cookie header for a request for the URL, if one may be sent.
    pub fn header_for_url(&self, url: &SiteUrl) -> (r: Option<String>)
        ensures
            text_view(r) == source_header(*self, url@),
    {
        match self {
            OllamaCookieSource::Manual(header) => if should_attach_ollama_cookie(url) {
                Some(header.clone())
            } else {
                None
            },
            OllamaCookieSource::Browser(cookies) => ollama_cookie_header_for_url(cookies, url),
        }
    }
}

/// Where the search for a session stands after the pasted header was looked at.
pub enum CookieResolution<Id> {
    /// The pasted header settles it.
    Settled(Result<OllamaCookieSource, ProviderError>),
    /// The browser's header for the account slot is needed.
    AskBrowser { force_reimport: bool, id: Id },
}

/// What the pasted header of a context normalizes to.
pub open spec fn manual_header(context: FetchContext) -> Option<Seq<char>> {
    match context.manual_cookie_header {
        Some(pasted) => normalized(pasted@),
        None => None,
    }
}

/// Whether `r` is where the search for a session stands after the pasted header
/// was looked at.
pub open spec fn is_source_resolution<Id>(
    context: FetchContext,
    id: Id,
    r: CookieResolution<Id>,
) -> bool {
    match manual_header(context) {
        Some(header) => match r {
            CookieResolution::Settled(Ok(OllamaCookieSource::Manual(h))) => h@ == header
                && carries_session(header),
            CookieResolution::Settled(Err(ProviderError::NoCookies)) => !carries_session(header),
            _ => false,
        },
        None => r == (CookieResolution::AskBrowser { force_reimport: false, id }),
    }
}

/// Looks at the pasted header. One that stands for a header settles the search,
/// for better or worse; else the browser's header for the slot is asked for.
pub fn resolve_cookie_source<Id>(context: &FetchContext, id: Id) -> (r: CookieResolution<Id>)
    ensures
        is_source_resolution(*context, id, r),
{
    if let Some(pasted) = &context.manual_cookie_header {
        if let Some(header) = normalize_cookie_header(pasted.as_str()) {
            return CookieResolution::Settled(
                if has_recognized_ollama_session_cookie(header.as_str()) {
                    Ok(OllamaCookieSource::Manual(header))
                } else {
                    Err(ProviderError::NoCookies)
                },
            );
        }
    }
    CookieResolution::AskBrowser { force_reimport: false, id }
}

/// The source that the browser's header makes.
pub open spec fn browser_source(outcome: Result<Option<String>, ProviderError>) -> Result<
    OllamaCookieSource,
    ProviderError,
> {
    match outcome {
        Ok(Some(header)) => Ok(OllamaCookieSource::Manual(header)),
        Ok(None) => Err(ProviderError::NoCookies),
        Err(error) => Err(error),
    }
}

/// The source that the browser's header makes; without a header there is none.
pub fn source_from_browser(outcome: Result<Option<String>, ProviderError>) -> (r: Result<
    OllamaCookieSource,
    ProviderError,
>)
    ensures
        r == browser_source(outcome),
{
    match outcome {
        Ok(Some(header)) => Ok(OllamaCookieSource::Manual(header)),
        Ok(None) => Err(ProviderError::NoCookies),
        Err(error) => Err(error),
    }
}

/// A change to the store of validated headers, which has one place per account
/// slot.
pub enum CacheCommand<Id> {
    /// Remember the header for the slot, with where it came from.
    Store { id: Id, header: String, label: &'static str },
    /// Forget the header of the slot.
    Clear { id: Id },
}

/// Where a validated header is said to come from.
pub open spec fn source_label(source: OllamaCookieSource) -> Seq<char> {
    match source {
        OllamaCookieSource::Manual(_) => "validated"@,
        OllamaCookieSource::Browser(_) => "browser"@,
    }
}

/// Whether the command stores what the source sends to the URL, for the slot.
pub open spec fn stores_header<Id>(
    command: Option<CacheCommand<Id>>,
    source: OllamaCookieSource,
    url: UrlView,
    id: Id,
) -> bool {
    match source_header(source, url) {
        None => command is None,
        Some(sent) => match command {
            Some(CacheCommand::Store { id: slot, header, label }) => slot == id && header@ == sent
                && label@ == source_label(source),
            _ => false,
        },
    }
}

/// What to remember for the slot when the source was accepted at the URL.
pub fn store_header<Id>(source: &OllamaCookieSource, url: &SiteUrl, id: Id) -> (r: Option<
    CacheCommand<Id>,
>)
    ensures
        stores_header(r, *source, url@, id),
{
    match source.header_for_url(url) {
        Some(header) => {
            let label: &'static str = match source {
                OllamaCookieSource::Manual(_) => "validated",
                OllamaCookieSource::Browser(_) => "browser",
            };
            Some(CacheCommand::Store { id, header, label })
        },
        None => None,
    }
}

/// Whether `r` is what to remember for the slot when the source was accepted at
/// the settings page.
pub open spec fn is_validation<Id>(
    source: OllamaCookieSource,
    id: Id,
    r: Result<Option<CacheCommand<Id>>, String>,
) -> bool {
    match parsed_url(OLLAMA_SETTINGS_URL@) {
        Ok(url) => r matches Ok(command) && stores_header(command, source, url, id),
        Err(message) => r matches Err(m) && m@ == message,
    }
}

/// What to remember for the slot after a successful web fetch with the source.
/// The error is the URL parser's message about the settings page.
pub fn cache_validated_session_cookie<Id>(source: &OllamaCookieSource, id: Id) -> (r: Result<
    Option<CacheCommand<Id>>,
    String,
>)
    ensures
        is_validation(*source, id, r),
{
    match SiteUrl::parse(OLLAMA_SETTINGS_URL) {
        Ok(url) => Ok(store_header(source, &url, id)),
        Err(message) => Err(message),
    }
}

/// What to forget when the session of the slot was refused.
pub open spec fn invalidation<Id>(id: Id) -> CacheCommand<Id> {
    CacheCommand::Clear { id }
}

/// What to forget after the session of the slot was refused, so that the next
/// refresh imports it again.
pub fn invalidate_cached_session_cookie<Id>(id: Id) -> (r: CacheCommand<Id>)
    ensures
        r == invalidation(id),
{
    CacheCommand::Clear { id }
}

} // verus!
