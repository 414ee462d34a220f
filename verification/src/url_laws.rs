//! Which URLs the session goes to, and which of them ask for a new one.

use crate::site_url::{asks_sign_in, attaches, UrlView};
use crate::text::lowered;
use crate::text_laws::what_occurs_stands_inside;
use vstd::prelude::*;

verus! {

/// Whether a URL has this host, written in whatever case.
pub open spec fn is_at(url: UrlView, host: Seq<char>) -> bool {
    match url.host {
        Some(h) => lowered(h) == host,
        None => false,
    }
}

/// The session goes to https pages of `ollama.com`, whatever the path, and
/// nowhere else: not to a subdomain, nor in the clear.
pub proof fn sessions_go_to_the_site_only(url: UrlView)
    ensures
        attaches(url) <==> url.scheme == "https"@ && is_at(url, "ollama.com"@),
{
    reveal_strlit("ollama.com");
    assert(lowered("ollama.com"@) =~= "ollama.com"@);
}

/// Pages of the site ask for a sign-in by their path: `/signin`, anything below
/// it, or a path with `/login` in it, in whatever case.
pub proof fn site_pages_ask_by_their_path(url: UrlView)
    requires
        url.scheme == "https"@,
        is_at(url, "ollama.com"@) || is_at(url, "www.ollama.com"@),
    ensures
        asks_sign_in(url) <==> {
            let path = lowered(url.path);
            ||| path == "/signin"@
            ||| exists|rest: Seq<char>| path == #[trigger] ("/signin/"@ + rest)
            ||| exists|a: Seq<char>, b: Seq<char>| path == #[trigger] (a + "/login"@ + b)
        },
{
    let path = lowered(url.path);
    what_occurs_stands_inside("/login"@, path);
    if "/signin/"@.is_prefix_of(path) {
        let rest = path.skip("/signin/"@.len() as int);
        assert(path =~= "/signin/"@ + rest);
    }
    if exists|rest: Seq<char>| path == #[trigger] ("/signin/"@ + rest) {
        assert(path.subrange(0, "/signin/"@.len() as int) =~= "/signin/"@);
    }
}

/// Every page of the sign-in host asks for a sign-in.
pub proof fn the_sign_in_host_asks_always(url: UrlView)
    requires
        url.scheme == "https"@,
        is_at(url, "signin.ollama.com"@),
    ensures
        asks_sign_in(url),
{
    reveal_strlit("signin.ollama.com");
    reveal_strlit("ollama.com");
    reveal_strlit("www.ollama.com");
    assert("signin.ollama.com"@.len() == 17 && "ollama.com"@.len() == 10
        && "www.ollama.com"@.len() == 14);
}

/// A host of WorkOS asks for a sign-in where its path starts with that of an
/// authorization, and nowhere else.
pub proof fn workos_asks_at_its_authorization(url: UrlView, host: Seq<char>)
    requires
        url.scheme == "https"@,
        is_at(url, host + ".workos.com"@),
    ensures
        asks_sign_in(url) <==> exists|rest: Seq<char>|
            lowered(url.path) == #[trigger] ("/user_management/authorize"@ + rest),
{
    let h = host + ".workos.com"@;
    let path = lowered(url.path);
    reveal_strlit(".workos.com");
    reveal_strlit("ollama.com");
    reveal_strlit("www.ollama.com");
    reveal_strlit("signin.ollama.com");
    assert(h[h.len() - 5] == 's');
    assert("ollama.com"@[5] == 'a' && "www.ollama.com"@[9] == 'a' && "signin.ollama.com"@[12]
        == 'a');
    assert(h != "ollama.com"@ && h != "www.ollama.com"@ && h != "signin.ollama.com"@);
    assert(h.subrange(h.len() - ".workos.com"@.len(), h.len() as int) =~= ".workos.com"@);
    let prefix = "/user_management/authorize"@;
    if prefix.is_prefix_of(path) {
        assert(path =~= prefix + path.skip(prefix.len() as int));
    }
    if exists|rest: Seq<char>| path == #[trigger] (prefix + rest) {
        assert(path.subrange(0, prefix.len() as int) =~= prefix);
    }
}

/// No other host asks for a sign-in, nor does a URL without one, nor one
/// without https.
pub proof fn other_urls_ask_for_nothing(url: UrlView)
    requires
        url.scheme != "https"@ || (!is_at(url, "ollama.com"@) && !is_at(url, "www.ollama.com"@)
            && !is_at(url, "signin.ollama.com"@) && forall|host: Seq<char>|
            !is_at(url, #[trigger] (host + ".workos.com"@))),
    ensures
        !asks_sign_in(url),
{
    if url.scheme == "https"@ && url.host is Some {
        let h = lowered(url.host->0);
        let end = ".workos.com"@;
        if end.is_suffix_of(h) {
            let host = h.take(h.len() - end.len());
            assert(h =~= host + end);
            assert(is_at(url, host + end));
        }
    }
}

} // verus!
