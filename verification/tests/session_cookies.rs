use plan_sessions::session_cookies::{
    has_recognized_ollama_session_cookie, is_chunked_nextauth_cookie_name,
    is_recognized_ollama_session_cookie_name, normalize_cookie_header, strip_curl_cookie_wrapper,
};

#[test]
fn normalizes_raw_ollama_session_cookie_value() {
    assert_eq!(
        normalize_cookie_header("abc123"),
        Some("__Secure-session=abc123".to_string())
    );
}

#[test]
fn preserves_full_cookie_header() {
    assert_eq!(
        normalize_cookie_header("__Secure-session=abc123; aid=device"),
        Some("__Secure-session=abc123; aid=device".to_string())
    );
}

#[test]
fn strips_cookie_header_prefix() {
    assert_eq!(
        normalize_cookie_header("Cookie: __Secure-session=abc123"),
        Some("__Secure-session=abc123".to_string())
    );
}

#[test]
fn strips_mid_string_cookie_label_and_curl_syntax() {
    assert_eq!(
        normalize_cookie_header("aid=device; Cookie: __Secure-session=abc123"),
        Some("aid=device; __Secure-session=abc123".to_string())
    );
    assert_eq!(
        normalize_cookie_header("-H 'Cookie: __Secure-session=abc123'"),
        Some("__Secure-session=abc123".to_string())
    );
    assert_eq!(
        normalize_cookie_header("-b \"__Secure-session=abc123\""),
        Some("__Secure-session=abc123".to_string())
    );
}

#[test]
fn ignores_empty_cookie_input() {
    assert_eq!(normalize_cookie_header("   "), None);
    assert_eq!(normalize_cookie_header("Cookie:   "), None);
}

#[test]
fn recognizes_exact_authkit_and_nextauth_session_cookie_names() {
    assert!(has_recognized_ollama_session_cookie(
        "wos-session=auth; theme=dark"
    ));
    assert!(has_recognized_ollama_session_cookie(
        "__Secure-next-auth.session-token.0=auth"
    ));
    assert!(!has_recognized_ollama_session_cookie(
        "notwos-session=auth; theme=dark"
    ));
    assert!(!has_recognized_ollama_session_cookie(
        "next-auth.session-token.evil=auth"
    ));
    assert!(!has_recognized_ollama_session_cookie("theme=dark"));
}

#[test]
fn recognized_session_cookie_required_for_cache_reuse() {
    assert!(has_recognized_ollama_session_cookie(
        "__Secure-session=abc123; path=/"
    ));
    assert!(!has_recognized_ollama_session_cookie("foo=bar; baz=qux"));
}

#[test]
fn every_segment_loses_its_label_and_blank_segments_go() {
    assert_eq!(
        normalize_cookie_header(" ; COOKIE: a=1 ;; cookie:b=2; "),
        Some("a=1; b=2".to_string())
    );
    // Only one label is dropped at the front and one more from the segment.
    assert_eq!(
        normalize_cookie_header("Cookie: Cookie: Cookie: a=1"),
        Some("Cookie: a=1".to_string())
    );
    // A label in front of another segment without a pair.
    assert_eq!(
        normalize_cookie_header("a=1; theme"),
        Some("a=1; theme".to_string())
    );
    assert_eq!(normalize_cookie_header("'Cookie: '"), None);
}

#[test]
fn curl_options_are_stripped_in_order() {
    assert_eq!(strip_curl_cookie_wrapper("  --cookie 'a=1'  "), "a=1");
    assert_eq!(strip_curl_cookie_wrapper("-b --cookie -H a=1"), "a=1");
    // The options are looked for once each, in this order.
    assert_eq!(strip_curl_cookie_wrapper("-H -b a=1"), "-b a=1");
    assert_eq!(strip_curl_cookie_wrapper("''\"a=1\"''"), "a=1");
    assert_eq!(strip_curl_cookie_wrapper("\"'a=1'\""), "'a=1'");
    assert_eq!(strip_curl_cookie_wrapper("\u{3000}x\u{a0}\u{85}"), "x");
    assert_eq!(strip_curl_cookie_wrapper("-bx"), "-bx");
}

#[test]
fn multibyte_text_is_no_label() {
    assert_eq!(
        normalize_cookie_header("cookié: a=1"),
        Some("cookié: a=1".to_string())
    );
    assert_eq!(
        normalize_cookie_header("é"),
        Some("__Secure-session=é".to_string())
    );
}

#[test]
fn bare_values_carry_a_session() {
    for value in ["abc123", "a;b", "  'tok en' ", "-b xyz"] {
        let header = normalize_cookie_header(value).unwrap();
        assert!(has_recognized_ollama_session_cookie(&header), "{}", header);
    }
}

#[test]
fn cleaning_keeps_the_session() {
    let header = normalize_cookie_header("x=1;cookie: wos-session=a=b;y").unwrap();
    assert_eq!(header, "x=1; wos-session=a=b; y");
    assert!(has_recognized_ollama_session_cookie(&header));
    let header = normalize_cookie_header("x=1;; cookie: theme=dark").unwrap();
    assert!(!has_recognized_ollama_session_cookie(&header));
}

#[test]
fn session_names_are_exact() {
    for name in [
        "session",
        "__Secure-session",
        "ollama_session",
        "__Host-ollama_session",
        "wos-session",
        "__Secure-next-auth.session-token",
        "next-auth.session-token",
        "next-auth.session-token.12",
    ] {
        assert!(is_recognized_ollama_session_cookie_name(name), "{}", name);
    }
    for name in [
        "",
        "Session",
        "session ",
        "next-auth.session-token.",
        "next-auth.session-token.1a",
        "next-auth.session-token1",
        "session.0",
    ] {
        assert!(!is_recognized_ollama_session_cookie_name(name), "{}", name);
    }
    assert!(is_chunked_nextauth_cookie_name("base.0123456789", "base"));
    assert!(!is_chunked_nextauth_cookie_name("base.٣", "base"));
    assert!(!is_chunked_nextauth_cookie_name("base", "base"));
}

#[test]
fn pairs_are_trimmed_before_they_are_told_apart() {
    assert!(has_recognized_ollama_session_cookie("a=1 ; session = x"));
    assert!(!has_recognized_ollama_session_cookie("session"));
    assert!(!has_recognized_ollama_session_cookie(""));
    assert!(!has_recognized_ollama_session_cookie("a=session"));
}

#[test]
fn full_headers_stay() {
    for header in ["a=1", "theme; session=x y; b=", "a='1'; -b c"] {
        assert_eq!(normalize_cookie_header(header).as_deref(), Some(header));
    }
}

#[test]
fn normalizing_keeps_the_session() {
    for input in [
        "session=x",
        " session=\"'",
        "-b a=1; wos-session=2",
        "--cookie cookie: a; session = ",
        ";;session=;",
    ] {
        assert!(has_recognized_ollama_session_cookie(input), "{}", input);
        let header = normalize_cookie_header(input).unwrap();
        assert!(has_recognized_ollama_session_cookie(&header), "{}", header);
    }
}

#[test]
fn only_blank_input_is_ignored() {
    for input in ["", " \t", "''", "cookie:", "-H 'Cookie:'", "\"\""] {
        assert_eq!(normalize_cookie_header(input), None, "{}", input);
    }
    for input in ["=", ";=;", "x", ";", "cookie: ;", "-b"] {
        let header = normalize_cookie_header(input).unwrap();
        assert!(header.contains('='), "{}", header);
    }
}

#[test]
fn curl_options_change_nothing() {
    for text in ["session=1; a=2 ", " 'token'", "Cookie: a=1"] {
        for option in ["-b ", "--cookie ", "-H "] {
            let copied = format!("{}{}", option, text);
            assert_eq!(
                normalize_cookie_header(&copied),
                normalize_cookie_header(text),
                "{}",
                copied
            );
        }
    }
    // Nothing is left behind the option here, so it is taken for a value.
    assert_eq!(
        normalize_cookie_header("-b  ").as_deref(),
        Some("__Secure-session=-b")
    );
}

#[test]
fn sessions_are_told_segment_by_segment() {
    for a in ["session=1", "a=1", ""] {
        for b in ["b", "wos-session=", ";"] {
            assert_eq!(
                has_recognized_ollama_session_cookie(&format!("{};{}", a, b)),
                has_recognized_ollama_session_cookie(a) || has_recognized_ollama_session_cookie(b)
            );
        }
    }
}
