//! Why a provider could not be asked, or what was wrong with its answer.

use vstd::prelude::*;

verus! {

/// A provider's failure.
#[derive(Debug)]
pub enum ProviderError {
    /// No cookie carries a session.
    NoCookies,
    /// The session is missing or has expired.
    AuthRequired,
    /// The answer cannot be read.
    Parse(String),
    /// Anything else.
    Other(String),
}

/// The model of a [`ProviderError`].
pub enum ErrorView {
    NoCookies,
    AuthRequired,
    Parse(Seq<char>),
    Other(Seq<char>),
}

impl View for ProviderError {
    type V = ErrorView;

    open spec fn view(&self) -> ErrorView {
        match self {
            ProviderError::NoCookies => ErrorView::NoCookies,
            ProviderError::AuthRequired => ErrorView::AuthRequired,
            ProviderError::Parse(message) => ErrorView::Parse(message@),
            ProviderError::Other(message) => ErrorView::Other(message@),
        }
    }
}

/// Whether the outcome is this failure.
pub open spec fn fails_with<T>(outcome: Result<T, ProviderError>, failure: ErrorView) -> bool {
    match outcome {
        Ok(_) => false,
        Err(error) => error@ == failure,
    }
}

} // verus!
