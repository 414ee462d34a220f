//! The search through the installed browsers for one that is logged in.
//!
//! A browser may hold cookies of the site without a session among them, so the
//! search goes on until a header carries one. What could not be read counts
//! only when no browser had a session.

use crate::browser_cookies::{ollama_cookie_header_for_url, session_header, Cookie};
use crate::cookie_source::OLLAMA_SETTINGS_URL;
use crate::error::ProviderError;
use crate::session_cookies::{carries_session, has_recognized_ollama_session_cookie};
use crate::site_url::{parsed_url, SiteUrl, UrlView};
use crate::text::text_view;
use vstd::prelude::*;

verus! {

/// What reading the cookies of one browser came to.
pub type BrowserOutcome = Result<Vec<Cookie>, ProviderError>;

/// A search under way: the URL to find a session for, and the first failure
/// that may have hidden one.
pub struct BrowserScan {
    pub url: SiteUrl,
    pub first_error: Option<ProviderError>,
}

/// The state of the search after one more browser.
pub enum BrowserStep {
    /// This header carries a session.
    Found(String),
    /// Go on to the next browser.
    Next(BrowserScan),
}

/// Where the search for a browser's header begins.
pub enum BrowserResolution {
    /// It is settled without looking at a browser.
    Settled(Result<Option<String>, ProviderError>),
    /// The browsers are to be searched.
    Search(BrowserScan),
}

/// The header of the outcome that carries a session for the URL.
pub open spec fn outcome_header(outcome: BrowserOutcome, url: UrlView) -> Option<Seq<char>> {
    match outcome {
        Ok(cookies) => session_header(cookies@, url),
        Err(_) => None,
    }
}

/// The failure in the outcome, unless it says only that there are no cookies.
pub open spec fn outcome_error(outcome: BrowserOutcome) -> Option<ProviderError> {
    match outcome {
        Ok(_) => None,
        Err(ProviderError::NoCookies) => None,
        Err(error) => Some(error),
    }
}

/// The first failure so far: an earlier one stays.
pub open spec fn first_of(
    earlier: Option<ProviderError>,
    later: Option<ProviderError>,
) -> Option<ProviderError> {
    match earlier {
        Some(error) => Some(error),
        None => later,
    }
}

/// The outcome of a whole search that goes through `outcomes` in order: the
/// header found, or the failure to report, or neither.
pub open spec fn search(
    first_error: Option<ProviderError>,
    outcomes: Seq<BrowserOutcome>,
    url: UrlView,
) -> Result<Option<Seq<char>>, ProviderError>
    decreases outcomes.len(),
{
    if outcomes.len() == 0 {
        match first_error {
            Some(error) => Err(error),
            None => Ok(None),
        }
    } else {
        match outcome_header(outcomes[0], url) {
            Some(header) => Ok(Some(header)),
            None => search(
                first_of(first_error, outcome_error(outcomes[0])),
                outcomes.skip(1),
                url,
            ),
        }
    }
}

/// Whether `r` is where the search for the browser's header begins: with the
/// header that was validated last, if it carries a session and no new import is
/// forced, or else with the browsers.
pub open spec fn is_resolution(
    force_reimport: bool,
    cached: Option<String>,
    r: BrowserResolution,
) -> bool {
    match (force_reimport, cached) {
        (false, Some(header)) if carries_session(header@) => r == BrowserResolution::Settled(
            Ok(Some(header)),
        ),
        _ => match parsed_url(OLLAMA_SETTINGS_URL@) {
            Ok(url) => r matches BrowserResolution::Search(scan) && scan.url@ == url
                && scan.first_error is None,
            Err(message) => r matches BrowserResolution::Settled(Err(ProviderError::Other(m)))
                && m@ == message,
        },
    }
}

/// Begins the search for the browser's header. The header that was validated
/// last is used again while it carries a session, unless a new import is
/// forced.
pub fn resolve_browser_cookie_header(force_reimport: bool, cached: Option<String>) -> (r:
    BrowserResolution)
    ensures
        is_resolution(force_reimport, cached, r),
{
    if !force_reimport {
        if let Some(header) = cached {
            if has_recognized_ollama_session_cookie(header.as_str()) {
                return BrowserResolution::Settled(Ok(Some(header)));
            }
        }
    }
    match SiteUrl::parse(OLLAMA_SETTINGS_URL) {
        Ok(url) => BrowserResolution::Search(BrowserScan { url, first_error: None }),
        Err(message) => BrowserResolution::Settled(Err(ProviderError::Other(message))),
    }
}

/// Whether `r` is the state of the search after one more browser.
pub open spec fn is_offered(scan: BrowserScan, outcome: BrowserOutcome, r: BrowserStep) -> bool {
    match outcome_header(outcome, scan.url@) {
        Some(header) => r matches BrowserStep::Found(h) && h@ == header,
        None => r == BrowserStep::Next(
            BrowserScan {
                url: scan.url,
                first_error: first_of(scan.first_error, outcome_error(outcome)),
            },
        ),
    }
}

/// What a search comes to when no browser is left.
pub open spec fn finished(scan: BrowserScan) -> Result<Option<String>, ProviderError> {
    match scan.first_error {
        Some(error) => Err(error),
        None => Ok(None),
    }
}

impl BrowserScan {
    /// Looks at what one more browser gave.
    pub fn offer(self, outcome: BrowserOutcome) -> (r: BrowserStep)
        ensures
            is_offered(self, outcome, r),
    {
        match outcome {
            Ok(cookies) => match ollama_cookie_header_for_url(&cookies, &self.url) {
                Some(header) => BrowserStep::Found(header),
                None => BrowserStep::Next(self),
            },
            Err(error) => match error {
                ProviderError::NoCookies => BrowserStep::Next(self),
                error => {
                    if self.first_error.is_none() {
                        BrowserStep::Next(
                            BrowserScan { url: self.url, first_error: Some(error) },
                        )
                    } else {
                        BrowserStep::Next(self)
                    }
                },
            },
        }
    }

    /// What the search came to when no browser is left.
    pub fn finish(self) -> (r: Result<Option<String>, ProviderError>)
        ensures
            r == finished(self),
    {
        match self.first_error {
            Some(error) => Err(error),
            None => Ok(None),
        }
    }
}

/// The model of what a search came to.
pub open spec fn search_view(outcome: Result<Option<String>, ProviderError>) -> Result<
    Option<Seq<char>>,
    ProviderError,
> {
    match outcome {
        Ok(header) => Ok(text_view(header)),
        Err(error) => Err(error),
    }
}

/// Goes through what all the browsers gave, in order, and finishes the search.
pub fn search_all(scan: BrowserScan, outcomes: Vec<BrowserOutcome>) -> (r: Result<
    Option<String>,
    ProviderError,
>)
    ensures
        search_view(r) == search(scan.first_error, outcomes@, scan.url@),
{
    let ghost all = outcomes@;
    let ghost result = search(scan.first_error, all, scan.url@);
    let mut state: BrowserScan = scan;
    assert(all.skip(0) =~= all);
    for outcome in it: outcomes
        invariant
            it.seq() == all,
            all == outcomes@,
            result == search(scan.first_error, all, scan.url@),
            result == search(state.first_error, all.skip(it.index() as int), state.url@),
    {
        assert(all.skip(it.index() as int).skip(1) =~= all.skip(it.index() + 1));
        match state.offer(outcome) {
            BrowserStep::Found(header) => {
                return Ok(Some(header));
            },
            BrowserStep::Next(next) => {
                state = next;
            },
        }
    }
    state.finish()
}

/// The search ends with the header of the first browser, in order, whose
/// cookies carry a session, whatever went wrong before.
pub proof fn search_finds_the_first_session(
    first_error: Option<ProviderError>,
    outcomes: Seq<BrowserOutcome>,
    url: UrlView,
    i: int,
)
    requires
        0 <= i < outcomes.len(),
        outcome_header(outcomes[i], url) is Some,
        forall|j: int| 0 <= j < i ==> outcome_header(#[trigger] outcomes[j], url) is None,
    ensures
        search(first_error, outcomes, url) == Ok::<Option<Seq<char>>, ProviderError>(
            outcome_header(outcomes[i], url),
        ),
    decreases outcomes.len(),
{
    if i > 0 {
        let rest = outcomes.skip(1);
        assert(rest[i - 1] == outcomes[i]);
        assert forall|j: int| 0 <= j < i - 1 implies outcome_header(#[trigger] rest[j], url)
            is None by {
            assert(rest[j] == outcomes[j + 1]);
        }
        search_finds_the_first_session(
            first_of(first_error, outcome_error(outcomes[0])),
            rest,
            url,
            i - 1,
        );
    }
}

/// Without a session in any browser, the search reports the first failure that
/// is more than a lack of cookies.
pub proof fn search_reports_the_first_failure(
    outcomes: Seq<BrowserOutcome>,
    url: UrlView,
    i: int,
)
    requires
        0 <= i < outcomes.len(),
        forall|j: int| 0 <= j < outcomes.len() ==> outcome_header(#[trigger] outcomes[j], url)
            is None,
        outcome_error(outcomes[i]) is Some,
        forall|j: int| 0 <= j < i ==> outcome_error(#[trigger] outcomes[j]) is None,
    ensures
        search(None, outcomes, url) == Err::<Option<Seq<char>>, ProviderError>(
            outcome_error(outcomes[i])->0,
        ),
    decreases outcomes.len(),
{
    let rest = outcomes.skip(1);
    assert forall|j: int| 0 <= j < rest.len() implies outcome_header(#[trigger] rest[j], url)
        is None by {
        assert(rest[j] == outcomes[j + 1]);
    }
    if i > 0 {
        assert(rest[i - 1] == outcomes[i]);
        assert forall|j: int| 0 <= j < i - 1 implies outcome_error(#[trigger] rest[j]) is None by {
            assert(rest[j] == outcomes[j + 1]);
        }
        search_reports_the_first_failure(rest, url, i - 1);
    } else {
        lemma_failure_stays(outcome_error(outcomes[0]), rest, url);
    }
}

/// A failure once met is the one reported, if no session follows.
proof fn lemma_failure_stays(
    first_error: Option<ProviderError>,
    outcomes: Seq<BrowserOutcome>,
    url: UrlView,
)
    requires
        first_error is Some,
        forall|j: int| 0 <= j < outcomes.len() ==> outcome_header(#[trigger] outcomes[j], url)
            is None,
    ensures
        search(first_error, outcomes, url) == Err::<Option<Seq<char>>, ProviderError>(
            first_error->0,
        ),
    decreases outcomes.len(),
{
    if outcomes.len() > 0 {
        let rest = outcomes.skip(1);
        assert forall|j: int| 0 <= j < rest.len() implies outcome_header(#[trigger] rest[j], url)
            is None by {
            assert(rest[j] == outcomes[j + 1]);
        }
        lemma_failure_stays(first_error, rest, url);
    }
}

/// With neither a session nor a failure that may have hidden one, the search
/// finds nothing and reports nothing.
pub proof fn search_without_session_or_failure(outcomes: Seq<BrowserOutcome>, url: UrlView)
    requires
        forall|j: int| 0 <= j < outcomes.len() ==> outcome_header(#[trigger] outcomes[j], url)
            is None,
        forall|j: int| 0 <= j < outcomes.len() ==> outcome_error(#[trigger] outcomes[j]) is None,
    ensures
        search(None, outcomes, url) == Ok::<Option<Seq<char>>, ProviderError>(None),
    decreases outcomes.len(),
{
    if outcomes.len() > 0 {
        let rest = outcomes.skip(1);
        assert forall|j: int| 0 <= j < rest.len() implies outcome_header(#[trigger] rest[j], url)
            is None && outcome_error(rest[j]) is None by {
            assert(rest[j] == outcomes[j + 1]);
        }
        assert forall|j: int| 0 <= j < rest.len() implies outcome_error(#[trigger] rest[j])
            is None by {
            assert(rest[j] == outcomes[j + 1]);
        }
        search_without_session_or_failure(rest, url);
    }
}

/// Every header that a search ends with carries a session.
pub proof fn found_header_carries_session(
    first_error: Option<ProviderError>,
    outcomes: Seq<BrowserOutcome>,
    url: UrlView,
)
    ensures
        search(first_error, outcomes, url) matches Ok(Some(header)) ==> carries_session(header),
    decreases outcomes.len(),
{
    if outcomes.len() > 0 && outcome_header(outcomes[0], url) is None {
        found_header_carries_session(
            first_of(first_error, outcome_error(outcomes[0])),
            outcomes.skip(1),
            url,
        );
    }
}

} // verus!
