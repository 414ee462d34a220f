# plan_sessions

Session cookies and plan usage of web-backed providers, with contracts that
Verus proves.

- `src/text.rs`: text as a sequence of characters.
- `src/session_cookies.rs`, `src/browser_cookies.rs`, `src/site_url.rs`: which
  cookies make up a session, and which URLs get them.
- `src/cookie_source.rs`, `src/browser_scan.rs`: where a session comes from.
- `src/json.rs`, `src/key_summary.rs`: JSON documents as plain data, and a
  summary of their shape that holds no value.
- `src/console.rs`: regions and conventions of the token plan console.
- `src/personal_request.rs`, `src/personal_usage.rs`, `src/personal_fetch.rs`:
  requests, answers and the course of a fetch of the personal plan.
- `src/session_laws.rs`, `src/normalizing_laws.rs`, `src/json_laws.rs`,
  `src/personal_laws.rs`, `src/fetch_laws.rs`: what holds across functions.
- `app/`: network, delays and the header store around the library.

The outside calls (`serde_json`, `reqwest`, `uuid`, and `str::to_lowercase`) are
behind small wrappers; the doc comment of each says what is taken for granted.
