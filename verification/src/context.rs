//! What a fetch is asked with.

use vstd::prelude::*;

verus! {

/// The settings of one fetch.
pub struct FetchContext {
    /// A cookie header that the user pasted.
    pub manual_cookie_header: Option<String>,
    /// How long a web request may take, in seconds.
    pub web_timeout: u64,
}

} // verus!
