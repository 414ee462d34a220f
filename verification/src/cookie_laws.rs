//! Which cookies of a browser go with a URL, and the header they make.

use crate::browser_cookies::{
    applicable, applies, domain_matches, header_of, pair_of, path_matches, session_header, Cookie,
};
use crate::header_laws::{marks_session, session_names_are_exactly_these};
use crate::session_cookies::{carries_session, OLLAMA_COOKIE_DOMAIN};
use crate::session_laws::{browser_session_is_recognized, is_tight, lemma_trim_tight};
use crate::site_url::UrlView;
use crate::text::{lower, lowered, strip_back, trimmed, CharClass};
use crate::text_laws::{
    is_blank, joining_goes_on, trimming_takes_white_space_only, white_space_around_is_trimmed,
};
use crate::url_laws::{is_at, sessions_go_to_the_site_only};
use vstd::prelude::*;

verus! {

/// A row of dots, or none.
pub open spec fn is_dots(s: Seq<char>) -> bool {
    forall|i: int| 0 <= i < s.len() ==> #[trigger] s[i] == '.'
}

/// The site's domain as browsers write it: in any case, with or without a dot in
/// front, with dots behind or none.
pub open spec fn is_site_domain(dot: Seq<char>, domain: Seq<char>, dots: Seq<char>) -> bool {
    &&& dot.len() <= 1 && is_dots(dot)
    &&& lowered(domain) == "ollama.com"@
    &&& is_dots(dots)
}

proof fn lemma_strip_dots(s: Seq<char>, dots: Seq<char>)
    requires
        is_dots(dots),
        s.len() > 0,
        s.last() != '.',
    ensures
        strip_back(s + dots, CharClass::Only('.')) == s,
    decreases dots.len(),
{
    if dots.len() == 0 {
        assert(s + dots =~= s);
    } else {
        assert((s + dots).last() == dots.last());
        assert((s + dots).drop_last() =~= s + dots.drop_last());
        assert(is_dots(dots.drop_last()));
        lemma_strip_dots(s, dots.drop_last());
    }
}

proof fn lemma_stripped_dots(s: Seq<char>)
    ensures
        exists|dots: Seq<char>|
            is_dots(dots) && s == #[trigger] (strip_back(s, CharClass::Only('.')) + dots),
    decreases s.len(),
{
    if s.len() > 0 && s.last() == '.' {
        lemma_stripped_dots(s.drop_last());
        let t = strip_back(s, CharClass::Only('.'));
        let dots = choose|dots: Seq<char>|
            is_dots(dots) && s.drop_last() == #[trigger] (strip_back(
                s.drop_last(),
                CharClass::Only('.'),
            ) + dots);
        let more = dots.push('.');
        assert(is_dots(more));
        assert(s =~= s.drop_last() + seq!['.']);
        assert(s =~= t + more);
    } else {
        let none: Seq<char> = seq![];
        assert(is_dots(none));
        assert(s =~= strip_back(s, CharClass::Only('.')) + none);
    }
}

/// The ends of the site's domain, however it is written.
proof fn lemma_site_ends(d: Seq<char>)
    requires
        lowered(d) == "ollama.com"@,
    ensures
        d.len() == 10,
        d.last() == 'm' || d.last() == 'M',
        d[0] == 'o' || d[0] == 'O',
{
    reveal_strlit("ollama.com");
    assert(lowered(d).len() == d.len());
    assert(lowered(d)[9] == lower(d[9]));
    assert(lowered(d)[0] == lower(d[0]));
}

/// A cookie belongs to the site if its domain is the site's, in any case, with
/// or without a dot in front, with dots behind or none, and with white space
/// around or none.
pub proof fn site_domains_belong_to_the_site(
    a: Seq<char>,
    dot: Seq<char>,
    domain: Seq<char>,
    dots: Seq<char>,
    b: Seq<char>,
)
    requires
        is_blank(a),
        is_site_domain(dot, domain, dots),
        is_blank(b),
    ensures
        domain_matches(a + (dot + domain + dots) + b),
{
    let t = dot + domain + dots;
    lemma_site_ends(domain);
    white_space_around_is_trimmed(a, t, b);
    assert(t[0] == (if dot.len() > 0 { dot[0] } else { domain[0] }));
    assert(t.last() == (if dots.len() > 0 { dots.last() } else { domain.last() }));
    assert(is_tight(t));
    lemma_trim_tight(t);
    assert((dot + domain).last() == domain.last());
    lemma_strip_dots(dot + domain, dots);
    if dot.len() == 0 {
        assert(dot + domain =~= domain);
    } else {
        assert(dot =~= seq!['.']);
        assert(lowered(dot + domain) =~= seq!['.'] + lowered(domain));
    }
}

/// No other domain does: neither a subdomain, nor one that merely ends like the
/// site's.
pub proof fn other_domains_do_not_belong_to_the_site(domain: Seq<char>)
    requires
        domain_matches(domain),
    ensures
        exists|a: Seq<char>, dot: Seq<char>, d: Seq<char>, dots: Seq<char>, b: Seq<char>|
            is_blank(a) && is_site_domain(dot, d, dots) && is_blank(b) && domain == #[trigger] (a + (
            dot + d + dots) + b),
{
    let t = trimmed(domain);
    trimming_takes_white_space_only(domain);
    let (a, b) = choose|a: Seq<char>, b: Seq<char>|
        is_blank(a) && is_blank(b) && domain == #[trigger] (a + t + b);
    lemma_stripped_dots(t);
    let u = strip_back(t, CharClass::Only('.'));
    let dots = choose|dots: Seq<char>| is_dots(dots) && t == #[trigger] (u + dots);
    if lowered(u) == "ollama.com"@ {
        let none: Seq<char> = seq![];
        assert(none + u =~= u);
        assert(is_site_domain(none, u, dots));
        assert(domain == a + (none + u + dots) + b);
    } else {
        assert(lowered(u) == seq!['.'] + OLLAMA_COOKIE_DOMAIN@);
        assert(lowered(u).len() == u.len());
        assert(lowered(u)[0] == lower(u[0]));
        let dot = seq![u[0]];
        let d = u.skip(1);
        assert(u =~= dot + d);
        assert(lowered(d) =~= lowered(u).skip(1));
        assert(lowered(u).skip(1) =~= OLLAMA_COOKIE_DOMAIN@);
        assert(is_site_domain(dot, d, dots));
        assert(domain == a + (dot + d + dots) + b);
    }
}

/// A cookie's path covers a request: everything, where it is empty or a slash;
/// else itself and what lies below it.
pub open spec fn covers(path: Seq<char>, request: Seq<char>) -> bool {
    ||| path.len() == 0
    ||| path == seq!['/']
    ||| exists|rest: Seq<char>|
        request == #[trigger] (path + rest) && (rest.len() == 0 || path.last() == '/' || rest[0]
            == '/')
}

/// A cookie goes with a request exactly if its path covers the request's, to
/// whatever depth.
pub proof fn paths_cover_what_lies_below(path: Seq<char>, request: Seq<char>)
    ensures
        path_matches(path, request) <==> covers(path, request),
{
    reveal_strlit("/");
    assert("/"@ =~= seq!['/']);
    if path_matches(path, request) && path.len() > 0 && path != "/"@ {
        let rest = request.skip(path.len() as int);
        assert(request =~= path + rest);
    }
    if exists|rest: Seq<char>|
        request == #[trigger] (path + rest) && (rest.len() == 0 || path.last() == '/' || rest[0]
            == '/') {
        let rest = choose|rest: Seq<char>|
            request == #[trigger] (path + rest) && (rest.len() == 0 || path.last() == '/'
                || rest[0] == '/');
        if path.len() > 0 {
            assert(request.subrange(0, path.len() as int) =~= path);
            if rest.len() == 0 {
                assert(request =~= path);
            }
        }
    }
}

/// A cookie of the site goes with every page that its path covers: all of them
/// for an empty path or a slash, and everything below a path, however deep.
pub proof fn cookies_go_with_what_they_cover(cookie: Cookie, url: UrlView, rest: Seq<char>)
    requires
        url.scheme == "https"@,
        is_at(url, "ollama.com"@),
        domain_matches(cookie.domain@),
        cookie.path@.len() == 0 || cookie.path@ == "/"@ || url.path == cookie.path@ || url.path
            == cookie.path@ + seq!['/'] + rest || (cookie.path@.last() == '/' && url.path
            == cookie.path@ + rest),
    ensures
        applies(cookie, url),
{
    sessions_go_to_the_site_only(url);
    paths_cover_what_lies_below(cookie.path@, url.path);
    reveal_strlit("/");
    assert("/"@ =~= seq!['/']);
    let none: Seq<char> = seq![];
    assert(cookie.path@ + none =~= cookie.path@);
    assert(cookie.path@ + seq!['/'] + rest =~= cookie.path@ + (seq!['/'] + rest));
    assert((seq!['/'] + rest)[0] == '/');
    assert(covers(cookie.path@, url.path));
}

/// Nothing but the domain and the path of a cookie decides whether it goes with
/// a URL, and it goes with pages of the site over https only.
pub proof fn cookies_go_by_domain_and_path(a: Cookie, b: Cookie, url: UrlView)
    requires
        a.domain@ == b.domain@,
        a.path@ == b.path@,
    ensures
        applies(a, url) == applies(b, url),
        applies(a, url) ==> url.scheme == "https"@ && is_at(url, "ollama.com"@) && domain_matches(
            a.domain@,
        ) && covers(a.path@, url.path),
{
    sessions_go_to_the_site_only(url);
    paths_cover_what_lies_below(a.path@, url.path);
}

/// A header has the cookies in order: one cookie makes its name, `=` and its
/// value, and those of two lists are put behind each other with `; ` between.
pub proof fn headers_list_the_cookies(a: Seq<Cookie>, b: Seq<Cookie>)
    requires
        a.len() > 0,
        b.len() > 0,
    ensures
        header_of(a + b) == header_of(a) + "; "@ + header_of(b),
        a.len() == 1 ==> header_of(a) == a[0].name@ + "="@ + a[0].value@,
        header_of(Seq::empty()).len() == 0,
{
    let f = |c: Cookie| pair_of(c);
    assert((a + b).map_values(f) =~= a.map_values(f) + b.map_values(f));
    joining_goes_on(a.map_values(f), b.map_values(f), "; "@);
    reveal_strlit("=");
    assert("="@ =~= seq!['=']);
    assert(Seq::<Cookie>::empty().map_values(f) =~= Seq::empty());
    if a.len() == 1 {
        assert(a.map_values(f)[0] == pair_of(a[0]));
    }
}

/// Where all the cookies go with the URL and one of them has a session's name,
/// the header has all of them.
pub proof fn session_headers_have_all_that_applies(cookies: Seq<Cookie>, url: UrlView, i: int)
    requires
        forall|j: int| 0 <= j < cookies.len() ==> applies(#[trigger] cookies[j], url),
        0 <= i < cookies.len(),
        marks_session(cookies[i].name@),
    ensures
        session_header(cookies, url) == Some(header_of(cookies)),
{
    lemma_all_apply(cookies, url);
    session_names_are_exactly_these(cookies[i].name@);
    browser_session_is_recognized(cookies, url, i);
}

/// Where all the cookies go with the URL, they make a header exactly if that
/// carries a session, and the header has all of them.
pub proof fn session_headers_need_a_session(cookies: Seq<Cookie>, url: UrlView)
    requires
        forall|j: int| 0 <= j < cookies.len() ==> applies(#[trigger] cookies[j], url),
    ensures
        session_header(cookies, url) == (if carries_session(header_of(cookies)) {
            Some(header_of(cookies))
        } else {
            None
        }),
{
    lemma_all_apply(cookies, url);
}

proof fn lemma_all_apply(cookies: Seq<Cookie>, url: UrlView)
    requires
        forall|j: int| 0 <= j < cookies.len() ==> applies(#[trigger] cookies[j], url),
    ensures
        applicable(cookies, url) == cookies,
    decreases cookies.len(),
{
    reveal(Seq::filter);
    if cookies.len() > 0 {
        let init = cookies.drop_last();
        assert forall|j: int| 0 <= j < init.len() implies applies(#[trigger] init[j], url) by {
            assert(init[j] == cookies[j]);
        }
        lemma_all_apply(init, url);
        assert(applies(cookies[cookies.len() - 1], url));
        assert(init.push(cookies.last()) =~= cookies);
    }
}

} // verus!
