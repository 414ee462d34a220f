//! Where a session comes from, and what is remembered of it.

use crate::browser_cookies::{session_header, Cookie};
use crate::browser_scan::{
    finished, is_offered, is_resolution, search, search_finds_the_first_session,
    search_reports_the_first_failure, search_without_session_or_failure, BrowserOutcome,
    BrowserResolution, BrowserScan, BrowserStep,
};
use crate::context::FetchContext;
use crate::cookie_source::{
    browser_source, invalidation, is_source_resolution, is_validation, source_header,
    stores_header, CacheCommand, CookieResolution, OllamaCookieSource,
};
use crate::error::ProviderError;
use crate::header_laws::{
    bare_values_come_through, begins_with_label, blank_input_stands_for_nothing, is_label,
    is_plain, lemma_plain_stays,
};
use crate::session_cookies::{carries_session, normalized};
use crate::session_laws::{bare_value_becomes_a_session, lacks, stored, HeaderStore};
use crate::site_url::{parsed_url, UrlView};
use crate::text_laws::is_blank;
use crate::url_laws::{is_at, sessions_go_to_the_site_only};
use vstd::prelude::*;

verus! {

/// A pasted bare value is the session, behind the session cookie's name, and no
/// browser is asked.
pub proof fn pasted_values_are_the_session<Id>(
    context: FetchContext,
    id: Id,
    resolution: CookieResolution<Id>,
)
    requires
        context.manual_cookie_header is Some,
        is_plain(context.manual_cookie_header->0@),
        lacks(context.manual_cookie_header->0@, '='),
        !begins_with_label(context.manual_cookie_header->0@),
        is_source_resolution(context, id, resolution),
    ensures
        resolution matches CookieResolution::Settled(Ok(OllamaCookieSource::Manual(header)))
            && header@ == "__Secure-session="@ + context.manual_cookie_header->0@,
{
    let t = context.manual_cookie_header->0@;
    bare_values_come_through(t);
    lemma_plain_stays(t);
    bare_value_becomes_a_session(t);
}

/// A pasted header settles where the session comes from, for better or worse: it
/// is the source if it carries a session, and else there are no cookies. No
/// browser is asked either way.
pub proof fn pasted_headers_settle_the_source<Id>(
    context: FetchContext,
    id: Id,
    header: Seq<char>,
    resolution: CookieResolution<Id>,
)
    requires
        context.manual_cookie_header is Some,
        normalized(context.manual_cookie_header->0@) == Some(header),
        is_source_resolution(context, id, resolution),
    ensures
        carries_session(header) ==> (resolution matches CookieResolution::Settled(
            Ok(OllamaCookieSource::Manual(h)),
        ) && h@ == header),
        !carries_session(header) ==> resolution == CookieResolution::<Id>::Settled(
            Err(ProviderError::NoCookies),
        ),
{
}

/// Without a pasted text, or with a blank one, the browser is asked for the
/// header of the same account slot, and the one validated last will do.
pub proof fn without_a_pasted_header_the_browser_is_asked<Id>(
    context: FetchContext,
    id: Id,
    label: Seq<char>,
    resolution: CookieResolution<Id>,
)
    requires
        is_label(label),
        context.manual_cookie_header matches Some(pasted) ==> is_blank(pasted@) || exists|
            w: Seq<char>,
        |
            is_blank(w) && pasted@ == #[trigger] (label + w),
        is_source_resolution(context, id, resolution),
    ensures
        resolution == (CookieResolution::AskBrowser { force_reimport: false, id }),
{
    if let Some(pasted) = context.manual_cookie_header {
        if is_blank(pasted@) {
            blank_input_stands_for_nothing(label, pasted@);
        } else {
            let w = choose|w: Seq<char>| is_blank(w) && pasted@ == #[trigger] (label + w);
            blank_input_stands_for_nothing(label, w);
        }
    }
}

/// The browser's header is the source as it is; without one there are no
/// cookies; and a failure stays the same failure.
pub proof fn browser_headers_are_the_source(header: String, error: ProviderError)
    ensures
        browser_source(Ok(Some(header))) == Ok::<OllamaCookieSource, ProviderError>(
            OllamaCookieSource::Manual(header),
        ),
        browser_source(Ok(None)) == Err::<OllamaCookieSource, ProviderError>(
            ProviderError::NoCookies,
        ),
        browser_source(Err(error)) == Err::<OllamaCookieSource, ProviderError>(error),
{
}

/// A header is sent as it is to https pages of the site, and to no other URL. Of
/// a browser's cookies the header is sent that they make for the URL.
pub proof fn headers_are_sent_as_they_are(header: String, cookies: Vec<Cookie>, url: UrlView)
    ensures
        source_header(OllamaCookieSource::Browser(cookies), url) == session_header(cookies@, url),
        source_header(OllamaCookieSource::Manual(header), url) == (if url.scheme == "https"@
            && is_at(url, "ollama.com"@) {
            Some(header@)
        } else {
            None
        }),
{
    sessions_go_to_the_site_only(url);
}

/// What is remembered after a successful fetch is what was sent, for the account
/// slot of the fetch, marked by where it came from; where nothing may be sent,
/// nothing is remembered.
pub proof fn what_was_sent_is_remembered<Id>(
    source: OllamaCookieSource,
    url: UrlView,
    id: Id,
    command: Option<CacheCommand<Id>>,
    store: HeaderStore<Id>,
)
    requires
        stores_header(command, source, url, id),
    ensures
        source_header(source, url) matches Some(sent) ==> command is Some && stored(
            store,
            command->0,
        ) == store.insert(
            id,
            (
                sent,
                match source {
                    OllamaCookieSource::Manual(_) => "validated"@,
                    OllamaCookieSource::Browser(_) => "browser"@,
                },
            ),
        ),
        source_header(source, url) is None ==> command is None,
{
}

/// A session counts as validated for the settings page.
pub proof fn sessions_are_validated_for_the_settings_page<Id>(
    source: OllamaCookieSource,
    id: Id,
    outcome: Result<Option<CacheCommand<Id>>, String>,
)
    requires
        is_validation(source, id, outcome),
    ensures
        match parsed_url("https://ollama.com/settings"@) {
            Ok(url) => outcome matches Ok(command) && stores_header(command, source, url, id),
            Err(message) => outcome matches Err(m) && m@ == message,
        },
{
}

/// A refused session is forgotten for its account slot, and for no other.
pub proof fn refused_sessions_are_forgotten<Id>(store: HeaderStore<Id>, id: Id)
    ensures
        stored(store, invalidation(id)) == store.remove(id),
{
}

/// The header validated last is used again as it is, if it carries a session and
/// no import is forced. In every other case the browsers are searched, for the
/// settings page.
pub proof fn the_last_header_is_used_or_the_browsers_are_searched(
    force_reimport: bool,
    cached: Option<String>,
    resolution: BrowserResolution,
)
    requires
        is_resolution(force_reimport, cached, resolution),
    ensures
        !force_reimport && cached is Some && carries_session(cached->0@) ==> resolution
            == BrowserResolution::Settled(Ok(cached)),
        force_reimport || cached is None || !carries_session(cached->0@) ==> match parsed_url(
            "https://ollama.com/settings"@,
        ) {
            Ok(url) => resolution matches BrowserResolution::Search(scan) && scan.url@ == url
                && scan.first_error is None,
            Err(message) => resolution matches BrowserResolution::Settled(
                Err(ProviderError::Other(m)),
            ) && m@ == message,
        },
{
}

/// Whether a browser gave no session for the URL: its cookies could not be read,
/// or make no header.
pub open spec fn gave_no_session(outcome: BrowserOutcome, url: UrlView) -> bool {
    match outcome {
        Ok(cookies) => session_header(cookies@, url) is None,
        Err(_) => true,
    }
}

/// The first browser with a session is the one whose header is taken, whatever
/// failed before, and whatever comes after.
pub proof fn the_first_session_is_taken(
    outcomes: Seq<BrowserOutcome>,
    url: UrlView,
    i: int,
    header: Seq<char>,
)
    requires
        0 <= i < outcomes.len(),
        outcomes[i] is Ok,
        session_header(outcomes[i]->Ok_0@, url) == Some(header),
        forall|j: int| 0 <= j < i ==> gave_no_session(#[trigger] outcomes[j], url),
    ensures
        search(None, outcomes, url) == Ok::<Option<Seq<char>>, ProviderError>(Some(header)),
{
    search_finds_the_first_session(None, outcomes, url, i);
}

/// Without a session in any browser, the first failure is reported that says
/// more than that there are no cookies.
pub proof fn the_first_failure_is_reported(
    outcomes: Seq<BrowserOutcome>,
    url: UrlView,
    i: int,
    error: ProviderError,
)
    requires
        0 <= i < outcomes.len(),
        forall|j: int| 0 <= j < outcomes.len() ==> gave_no_session(#[trigger] outcomes[j], url),
        outcomes[i] == Err::<Vec<Cookie>, ProviderError>(error),
        error != ProviderError::NoCookies,
        forall|j: int|
            0 <= j < i ==> ((#[trigger] outcomes[j]) matches Err(e) ==> e
                == ProviderError::NoCookies),
    ensures
        search(None, outcomes, url) == Err::<Option<Seq<char>>, ProviderError>(error),
{
    search_reports_the_first_failure(outcomes, url, i);
}

/// Without a session in any browser, and no failure beyond a lack of cookies,
/// nothing is found and nothing reported.
pub proof fn nothing_is_reported_without_a_failure(outcomes: Seq<BrowserOutcome>, url: UrlView)
    requires
        forall|j: int|
            0 <= j < outcomes.len() ==> gave_no_session(#[trigger] outcomes[j], url) && (
            outcomes[j] matches Err(e) ==> e == ProviderError::NoCookies),
    ensures
        search(None, outcomes, url) == Ok::<Option<Seq<char>>, ProviderError>(None),
{
    search_without_session_or_failure(outcomes, url);
}

/// Each browser is looked at on its own: one with a session ends the search with
/// its header; one without leaves it as it was, but for the first failure that
/// says more than that there are no cookies. In the end that failure is what the
/// search comes to, or nothing is.
pub proof fn browsers_are_looked_at_one_by_one(
    scan: BrowserScan,
    outcome: BrowserOutcome,
    step: BrowserStep,
)
    requires
        is_offered(scan, outcome, step),
    ensures
        !gave_no_session(outcome, scan.url@) ==> (step matches BrowserStep::Found(header) && Some(
            header@,
        ) == session_header(outcome->Ok_0@, scan.url@)),
        gave_no_session(outcome, scan.url@) ==> (step matches BrowserStep::Next(next) && {
            &&& next.url == scan.url
            &&& scan.first_error is Some ==> next.first_error == scan.first_error
            &&& scan.first_error is None ==> next.first_error == (match outcome {
                Err(error) if error != ProviderError::NoCookies => Some(error),
                _ => None,
            })
        }),
        finished(scan) == (match scan.first_error {
            Some(error) => Err::<Option<String>, ProviderError>(error),
            None => Ok(None),
        }),
{
}

/// A pasted text that stands for no header counts as none: the browser is asked
/// for the header of the same account slot.
pub proof fn pasted_nothing_counts_as_none<Id>(
    context: FetchContext,
    id: Id,
    resolution: CookieResolution<Id>,
)
    requires
        context.manual_cookie_header matches Some(pasted) ==> normalized(pasted@) is None,
        is_source_resolution(context, id, resolution),
    ensures
        resolution == (CookieResolution::AskBrowser { force_reimport: false, id }),
{
}

} // verus!
