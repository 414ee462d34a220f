use plan_sessions::browser_cookies::{
    build_cookie_header, cookie_applies_to_ollama_url, first_recognized_cookie_header,
    ollama_cookie_header_for_url, Cookie,
};
use plan_sessions::browser_scan::{
    resolve_browser_cookie_header, search_all, BrowserOutcome, BrowserResolution, BrowserScan,
    BrowserStep,
};
use plan_sessions::context::FetchContext;
use plan_sessions::cookie_source::{
    cache_validated_session_cookie, invalidate_cached_session_cookie, resolve_cookie_source,
    source_from_browser, store_header, CacheCommand, CookieResolution, OllamaCookieSource,
};
use plan_sessions::error::ProviderError;
use plan_sessions::session_cookies::OLLAMA_SESSION_COOKIE_NAME;
use plan_sessions::site_url::{
    is_ollama_sign_in_redirect, should_attach_ollama_cookie, SiteUrl,
};

fn url(text: &str) -> SiteUrl {
    SiteUrl::parse(text).unwrap()
}

fn cookie(name: &str, domain: &str, path: &str) -> Cookie {
    Cookie {
        name: name.to_string(),
        value: "test".to_string(),
        domain: domain.to_string(),
        path: path.to_string(),
        expires: None,
        is_secure: true,
        is_http_only: true,
    }
}

#[test]
fn first_recognized_cookie_header_skips_browsers_without_a_session_cookie() {
    let irrelevant_only = vec![Cookie {
        name: "aid".to_string(),
        value: "device-id".to_string(),
        domain: "ollama.com".to_string(),
        path: "/".to_string(),
        expires: None,
        is_secure: true,
        is_http_only: false,
    }];
    let real_session = vec![Cookie {
        name: OLLAMA_SESSION_COOKIE_NAME.to_string(),
        value: "abc123".to_string(),
        domain: "ollama.com".to_string(),
        path: "/".to_string(),
        expires: None,
        is_secure: true,
        is_http_only: true,
    }];

    let url = SiteUrl::parse("https://ollama.com/settings").unwrap();
    let header = first_recognized_cookie_header(&vec![irrelevant_only, real_session], &url);

    assert_eq!(
        header.as_deref(),
        Some("__Secure-session=abc123"),
        "should skip the first (irrelevant) cookie set and use the second (real session)"
    );
}

#[test]
fn first_recognized_cookie_header_none_when_no_set_has_a_session_cookie() {
    let only_irrelevant = vec![Cookie {
        name: "aid".to_string(),
        value: "device-id".to_string(),
        domain: "ollama.com".to_string(),
        path: "/".to_string(),
        expires: None,
        is_secure: true,
        is_http_only: false,
    }];

    let url = SiteUrl::parse("https://ollama.com/settings").unwrap();
    let header = first_recognized_cookie_header(&vec![only_irrelevant], &url);

    assert_eq!(header, None);
}

#[test]
fn limits_browser_cookie_headers_to_ollama_settings_scope() {
    let cookies = vec![
        cookie("wos-session", ".ollama.com", "/"),
        cookie("wos-session", "signin.ollama.com", "/"),
        cookie("__Secure-session", "ollama.com", "/signin"),
    ];

    assert_eq!(
        ollama_cookie_header_for_url(
            &cookies,
            &SiteUrl::parse("https://ollama.com/settings").unwrap()
        )
        .as_deref(),
        Some("wos-session=test")
    );
    assert_eq!(
        ollama_cookie_header_for_url(
            &vec![cookie("__Secure-session", "ollama.com", "/settings")],
            &SiteUrl::parse("https://ollama.com/api/tags").unwrap()
        ),
        None
    );
    assert_eq!(
        ollama_cookie_header_for_url(
            &vec![cookie("__Secure-session", "ollama.com", "/settings")],
            &SiteUrl::parse("https://ollama.com/settings/account").unwrap()
        )
        .as_deref(),
        Some("__Secure-session=test")
    );
    let source = OllamaCookieSource::Browser(vec![
        cookie("__Secure-session", "ollama.com", "/settings"),
        cookie("wos-session", "ollama.com", "/api"),
    ]);
    assert_eq!(
        source
            .header_for_url(&SiteUrl::parse("https://ollama.com/settings").unwrap())
            .as_deref(),
        Some("__Secure-session=test")
    );
    assert_eq!(
        source
            .header_for_url(&SiteUrl::parse("https://ollama.com/api/models").unwrap())
            .as_deref(),
        Some("wos-session=test")
    );
}

#[test]
fn only_attaches_web_cookie_to_https_ollama_urls() {
    assert!(should_attach_ollama_cookie(
        &SiteUrl::parse("https://ollama.com/settings").unwrap()
    ));
    assert!(!should_attach_ollama_cookie(
        &SiteUrl::parse("http://ollama.com/settings").unwrap()
    ));
    assert!(!should_attach_ollama_cookie(
        &SiteUrl::parse("https://example.com/settings").unwrap()
    ));
}

#[test]
fn recognizes_workos_signin_redirects_as_expired_sessions() {
    assert!(is_ollama_sign_in_redirect(
        &SiteUrl::parse("https://signin.ollama.com/?client_id=test").unwrap()
    ));
    assert!(is_ollama_sign_in_redirect(
        &SiteUrl::parse("https://auth.workos.com/user_management/authorize?client_id=test")
            .unwrap()
    ));
    assert!(!is_ollama_sign_in_redirect(
        &SiteUrl::parse("https://auth.workos.com/other").unwrap()
    ));
    assert!(!is_ollama_sign_in_redirect(
        &SiteUrl::parse("http://signin.ollama.com/").unwrap()
    ));
}

#[test]
fn urls_are_taken_apart() {
    let parsed = url("HTTPS://OLLAMA.com:8443/Settings/../api?q=1#top");
    assert_eq!(parsed.scheme, "https");
    assert_eq!(parsed.host.as_deref(), Some("ollama.com"));
    assert_eq!(parsed.path, "/api");
    assert_eq!(url("mailto:someone@ollama.com").host, None);
    assert_eq!(
        SiteUrl::parse("/settings").unwrap_err(),
        "relative URL without a base"
    );
}

#[test]
fn sign_in_pages_are_told_by_host_and_path() {
    for text in [
        "https://ollama.com/signin",
        "https://www.ollama.com/SignIn/step",
        "https://ollama.com/a/LOGIN?x",
        "https://x.workos.com/user_management/authorize/2",
    ] {
        assert!(is_ollama_sign_in_redirect(&url(text)), "{}", text);
    }
    for text in [
        "https://ollama.com/signing",
        "https://ollama.com/settings",
        "https://workos.com/user_management/authorize",
        "https://api.ollama.com/signin",
        "mailto:signin@ollama.com",
    ] {
        assert!(!is_ollama_sign_in_redirect(&url(text)), "{}", text);
    }
}

#[test]
fn hand_made_hosts_match_in_any_case() {
    let loud = SiteUrl {
        scheme: "https".to_string(),
        host: Some("OLLAMA.Com".to_string()),
        path: "/".to_string(),
    };
    assert!(should_attach_ollama_cookie(&loud));
    let hostless = SiteUrl {
        scheme: "https".to_string(),
        host: None,
        path: "/".to_string(),
    };
    assert!(!should_attach_ollama_cookie(&hostless));
    assert!(!is_ollama_sign_in_redirect(&hostless));
}

#[test]
fn cookies_apply_by_domain_and_path() {
    let settings = url("https://ollama.com/settings");
    for (domain, path) in [
        (" .OLLAMA.com.. ", "/"),
        ("ollama.com", ""),
        ("ollama.com", "/settings"),
        ("ollama.com.", "/"),
    ] {
        assert!(
            cookie_applies_to_ollama_url(&cookie("a", domain, path), &settings),
            "{} {}",
            domain,
            path
        );
    }
    for (domain, path) in [
        ("..ollama.com", "/"),
        ("www.ollama.com", "/"),
        ("ollama.com", "/set"),
        ("ollama.com", "/settings/"),
        ("ollama.com", "settings"),
    ] {
        assert!(
            !cookie_applies_to_ollama_url(&cookie("a", domain, path), &settings),
            "{} {}",
            domain,
            path
        );
    }
    let below = url("https://ollama.com/settings/account");
    assert!(cookie_applies_to_ollama_url(
        &cookie("a", "ollama.com", "/settings/"),
        &below
    ));
    assert!(!cookie_applies_to_ollama_url(
        &cookie("a", "ollama.com", "/settings"),
        &url("https://ollama.com/settings2")
    ));
    assert!(!cookie_applies_to_ollama_url(
        &cookie("a", "ollama.com", "/"),
        &url("http://ollama.com/")
    ));
}

#[test]
fn headers_join_the_pairs_in_order() {
    assert_eq!(build_cookie_header(&vec![]), "");
    assert_eq!(
        build_cookie_header(&vec![
            cookie("a", "x", "/"),
            cookie("b", "y", "/"),
            cookie("c", "z", "/")
        ]),
        "a=test; b=test; c=test"
    );
}

#[test]
fn other_cookies_do_not_count() {
    let target = url("https://ollama.com/settings");
    let with = vec![
        cookie("theme", "ollama.com", "/"),
        cookie("session", "other.com", "/"),
        cookie("session", "ollama.com", "/"),
    ];
    let without = vec![
        cookie("theme", "ollama.com", "/"),
        cookie("session", "ollama.com", "/"),
    ];
    assert_eq!(
        ollama_cookie_header_for_url(&with, &target),
        ollama_cookie_header_for_url(&without, &target)
    );
    assert_eq!(
        ollama_cookie_header_for_url(&with, &target).as_deref(),
        Some("theme=test; session=test")
    );
}

#[test]
fn headers_stay_on_the_site() {
    let manual = OllamaCookieSource::Manual("session=1".to_string());
    let browser = OllamaCookieSource::Browser(vec![cookie("session", "ollama.com", "/")]);
    for text in [
        "http://ollama.com/",
        "https://www.ollama.com/",
        "https://ollama.com.evil.org/",
    ] {
        assert_eq!(manual.header_for_url(&url(text)), None);
        assert_eq!(browser.header_for_url(&url(text)), None);
    }
    assert_eq!(
        manual.header_for_url(&url("https://ollama.com/x")).as_deref(),
        Some("session=1")
    );
}

fn context(manual: Option<&str>) -> FetchContext {
    FetchContext {
        manual_cookie_header: manual.map(|text| text.to_string()),
        web_timeout: 10,
    }
}

#[test]
fn pasted_header_settles_the_source() {
    match resolve_cookie_source(&context(Some("Cookie: session=1")), 7u8) {
        CookieResolution::Settled(Ok(OllamaCookieSource::Manual(header))) => {
            assert_eq!(header, "session=1")
        }
        _ => panic!("a pasted session is used"),
    }
    assert!(matches!(
        resolve_cookie_source(&context(Some("theme=dark")), 7u8),
        CookieResolution::Settled(Err(ProviderError::NoCookies))
    ));
    assert!(matches!(
        resolve_cookie_source(&context(Some("Cookie: ;")), 7u8),
        CookieResolution::Settled(Ok(OllamaCookieSource::Manual(header)))
            if header == "__Secure-session=;"
    ));
    for pasted in [None, Some("  "), Some("Cookie:")] {
        assert!(matches!(
            resolve_cookie_source(&context(pasted), 7u8),
            CookieResolution::AskBrowser {
                force_reimport: false,
                id: 7
            }
        ));
    }
}

#[test]
fn browser_header_makes_the_source() {
    assert!(matches!(
        source_from_browser(Ok(Some("session=1".to_string()))),
        Ok(OllamaCookieSource::Manual(header)) if header == "session=1"
    ));
    assert!(matches!(
        source_from_browser(Ok(None)),
        Err(ProviderError::NoCookies)
    ));
    assert!(matches!(
        source_from_browser(Err(ProviderError::AuthRequired)),
        Err(ProviderError::AuthRequired)
    ));
}

#[test]
fn validated_headers_are_stored_for_their_slot() {
    let manual = OllamaCookieSource::Manual("session=1".to_string());
    match cache_validated_session_cookie(&manual, 3u8) {
        Ok(Some(CacheCommand::Store { id, header, label })) => {
            assert_eq!((id, header.as_str(), label), (3, "session=1", "validated"))
        }
        _ => panic!("the header is stored"),
    }
    let browser = OllamaCookieSource::Browser(vec![cookie("session", "ollama.com", "/settings")]);
    match cache_validated_session_cookie(&browser, 4u8) {
        Ok(Some(CacheCommand::Store { id, header, label })) => {
            assert_eq!((id, header.as_str(), label), (4, "session=test", "browser"))
        }
        _ => panic!("the header is stored"),
    }
    let elsewhere = OllamaCookieSource::Browser(vec![cookie("session", "ollama.com", "/api")]);
    assert!(matches!(
        cache_validated_session_cookie(&elsewhere, 4u8),
        Ok(None)
    ));
    assert!(store_header(&manual, &url("https://example.com/"), 1u8).is_none());
    assert!(matches!(
        invalidate_cached_session_cookie(9u8),
        CacheCommand::Clear { id: 9 }
    ));
}

#[test]
fn cached_header_is_used_again_while_it_has_a_session() {
    assert!(matches!(
        resolve_browser_cookie_header(false, Some("session=1".to_string())),
        BrowserResolution::Settled(Ok(Some(header))) if header == "session=1"
    ));
    for (force, cached) in [
        (true, Some("session=1".to_string())),
        (false, Some("theme=dark".to_string())),
        (false, None),
    ] {
        match resolve_browser_cookie_header(force, cached) {
            BrowserResolution::Search(scan) => {
                assert_eq!(scan.url.host.as_deref(), Some("ollama.com"));
                assert_eq!(scan.url.path, "/settings");
                assert!(scan.first_error.is_none());
            }
            BrowserResolution::Settled(_) => panic!("the browsers are searched"),
        }
    }
}

#[test]
fn validated_sessions_are_used_again_until_they_are_refused() {
    let mut store: std::collections::BTreeMap<u32, String> = std::collections::BTreeMap::new();
    let mut apply = |command: CacheCommand<u32>| match command {
        CacheCommand::Store { id, header, .. } => {
            store.insert(id, header);
            store.clone()
        }
        CacheCommand::Clear { id } => {
            store.remove(&id);
            store.clone()
        }
    };
    for source in [
        OllamaCookieSource::Manual("session=1".to_string()),
        OllamaCookieSource::Browser(vec![cookie("session", "ollama.com", "/")]),
    ] {
        let sent = source
            .header_for_url(&url("https://ollama.com/settings"))
            .unwrap();
        apply(cache_validated_session_cookie(&source, 1).unwrap().unwrap());
        let kept = apply(invalidate_cached_session_cookie(2));
        assert!(matches!(
            resolve_browser_cookie_header(false, kept.get(&1).cloned()),
            BrowserResolution::Settled(Ok(Some(header))) if header == sent
        ));
        let cleared = apply(invalidate_cached_session_cookie(1));
        assert!(matches!(
            resolve_browser_cookie_header(false, cleared.get(&1).cloned()),
            BrowserResolution::Search(_)
        ));
    }
}

fn search(outcomes: Vec<BrowserOutcome>) -> Result<Option<String>, ProviderError> {
    let mut scan = BrowserScan {
        url: url("https://ollama.com/settings"),
        first_error: None,
    };
    for outcome in outcomes {
        match scan.offer(outcome) {
            BrowserStep::Found(header) => return Ok(Some(header)),
            BrowserStep::Next(next) => scan = next,
        }
    }
    scan.finish()
}

#[test]
fn search_goes_on_until_a_session_turns_up() {
    let stale = || Ok(vec![cookie("consent", "ollama.com", "/")]);
    let session = || Ok(vec![cookie("session", "ollama.com", "/")]);
    let locked = || Err(ProviderError::Other("locked".to_string()));
    assert_eq!(
        search(vec![stale(), locked(), session(), stale()])
            .unwrap()
            .as_deref(),
        Some("session=test")
    );
    assert!(matches!(
        search(vec![
            stale(),
            Err(ProviderError::NoCookies),
            locked(),
            Err(ProviderError::AuthRequired)
        ]),
        Err(ProviderError::Other(message)) if message == "locked"
    ));
    assert!(matches!(
        search(vec![Err(ProviderError::NoCookies), stale()]),
        Ok(None)
    ));
    assert!(matches!(search(vec![]), Ok(None)));
}

#[test]
fn search_of_all_browsers_comes_to_the_same() {
    let scan = |first_error: Option<ProviderError>| BrowserScan {
        url: url("https://ollama.com/settings"),
        first_error,
    };
    let session = || Ok(vec![cookie("session", "ollama.com", "/")]);
    let locked = || Err(ProviderError::Other("locked".to_string()));
    assert_eq!(
        search_all(scan(None), vec![locked(), session()])
            .unwrap()
            .as_deref(),
        Some("session=test")
    );
    assert!(matches!(
        search_all(scan(Some(ProviderError::AuthRequired)), vec![locked()]),
        Err(ProviderError::AuthRequired)
    ));
    assert!(matches!(
        search_all(scan(None), vec![Err(ProviderError::NoCookies), locked()]),
        Err(ProviderError::Other(message)) if message == "locked"
    ));
    assert!(matches!(search_all(scan(None), vec![]), Ok(None)));
}
