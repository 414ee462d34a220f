use plan_sessions::console::{AlibabaTokenPlanRegion, ConsoleProfile, ConsoleSupport};
use plan_sessions::context::FetchContext;
use plan_sessions::error::ProviderError;
use plan_sessions::json::{find_first_value_for_key, integer_json, Json, JsonMap};
use plan_sessions::key_summary::{document_key_summary, response_key_summary};
use plan_sessions::personal_fetch::{
    judge_usage, FetchAction, FetchEvent, FetchFailure, FetchPhase, PersonalFetch, UsageVerdict,
    RETRY_DELAY_MILLIS,
};
use plan_sessions::personal_request::{
    build_personal_form, build_personal_params_json, csrf_token, new_trace_id, personal_api_url,
    personal_form_fields, personal_headers, personal_params_document, personal_request,
    personal_response, PersonalApiContext,
};
use plan_sessions::personal_usage::{
    assemble_snapshot, complete_usage, display_plan_name, document_success_without_windows,
    envelope_says_success, parse_personal_usage, personal_usage_success_without_windows,
    plan_code_from_bytes, plan_of_object, quota_totals_from_bytes, read_personal_usage,
    UsageReading, UsageWindows,
};
use serde_json::Value;

const PERSONAL_USAGE_API: &str = "zeldaHttp.apikeyMgr./tokenplan/personal/api/v2/usage";

/// Plain conventions: quantities are `f64`, points in time milliseconds.
struct Console;

fn copy(json: &Json) -> Json {
    match json {
        Json::Null => Json::Null,
        Json::Bool(b) => Json::Bool(*b),
        Json::Number(n) => Json::Number(n.clone()),
        Json::Text(t) => Json::Text(t.clone()),
        Json::Array(items) => Json::Array(items.iter().map(copy).collect()),
        Json::Object(object) => object_of(
            object
                .entries()
                .iter()
                .map(|(key, value)| (key.clone(), copy(value))),
        ),
    }
}

fn object_of(entries: impl Iterator<Item = (String, Json)>) -> Json {
    let mut map = JsonMap::new();
    for (key, value) in entries {
        map.insert(key, value);
    }
    map.into_json()
}

/// The compact text of a document.
fn text_of(document: Json) -> String {
    let mut map = JsonMap::new();
    map.insert(String::new(), document);
    let text = map.into_text();
    text.strip_prefix("{\"\":")
        .and_then(|rest| rest.strip_suffix('}'))
        .unwrap()
        .to_string()
}

impl ConsoleSupport for Console {
    type Number = f64;
    type Date = i64;

    fn cookie_value(&self, name: &str, cookie_header: &str) -> Option<String> {
        cookie_header
            .split(';')
            .filter_map(|pair| pair.trim().split_once('='))
            .find(|(key, _)| *key == name)
            .map(|(_, value)| value.to_string())
    }

    fn expand_json_strings(&self, document: Json) -> Json {
        match document {
            Json::Text(text) => match Json::parse(text.as_bytes()) {
                Some(Json::Object(object)) => self.expand_json_strings(Json::Object(object)),
                Some(Json::Array(items)) => self.expand_json_strings(Json::Array(items)),
                _ => Json::Text(text),
            },
            Json::Array(items) => Json::Array(
                items
                    .into_iter()
                    .map(|item| self.expand_json_strings(item))
                    .collect(),
            ),
            Json::Object(object) => object_of(
                object
                    .into_entries()
                    .into_iter()
                    .map(|(key, value)| (key, self.expand_json_strings(value))),
            ),
            other => other,
        }
    }

    fn find_object_containing_any_of(&self, document: &Json, keys: &[&str]) -> Option<Json> {
        match document {
            Json::Object(object) => {
                let mut entries = object.entries().iter();
                if entries.any(|(key, _)| keys.contains(&key.as_str())) {
                    return Some(copy(document));
                }
                object
                    .entries()
                    .iter()
                    .find_map(|(_, value)| self.find_object_containing_any_of(value, keys))
            }
            Json::Array(items) => items
                .iter()
                .find_map(|item| self.find_object_containing_any_of(item, keys)),
            _ => None,
        }
    }

    fn number_field(&self, object: &Json, key: &str) -> Option<f64> {
        match object.get(key) {
            Some(Json::Number(number)) => number.as_f64(),
            Some(Json::Text(text)) => text.parse().ok(),
            _ => None,
        }
    }

    fn percentage_points(&self, fraction: Option<f64>) -> Option<f64> {
        fraction.map(|f| f * 100.0)
    }

    fn date_field(&self, object: &Json, key: &str) -> Option<i64> {
        match object.get(key) {
            Some(Json::Number(number)) => number.as_i64(),
            _ => None,
        }
    }

    fn throw_if_error_payload(&self, document: &Json) -> Result<(), ProviderError> {
        match document.get("errorMsg").and_then(|message| message.as_str()) {
            Some(message) if !message.is_empty() => Err(ProviderError::Other(message.to_string())),
            _ => Ok(()),
        }
    }

    fn is_likely_login_html(&self, data: &[u8]) -> bool {
        data.starts_with(b"<html")
    }
}

fn intl_personal() -> AlibabaTokenPlanRegion {
    AlibabaTokenPlanRegion {
        product_code: "plan_intl".to_string(),
        gateway_base_url: "https://gateway.example.com".to_string(),
        dashboard_url: "https://console.example.com/plan/personal".to_string(),
        quota_base_url: "https://quota.example.com".to_string(),
        personal_api_action: "IntlGateway".to_string(),
        current_region_id: "ap-southeast-1".to_string(),
        personal_console_site: "INTL".to_string(),
    }
}

fn profile() -> ConsoleProfile {
    ConsoleProfile {
        language: "en-US".to_string(),
        personal_console_product: "product_one".to_string(),
        user_agent: "agent/1.0".to_string(),
        personal_subscription_api: "api.subscription".to_string(),
        personal_quota_config_api: "api.quota".to_string(),
        personal_usage_api: PERSONAL_USAGE_API.to_string(),
    }
}

fn json(text: &str) -> Json {
    Json::parse(text.as_bytes()).unwrap()
}

#[test]
fn personal_form_forwards_optional_sec_token() {
    let with_token = build_personal_form(
        &Console,
        PERSONAL_USAGE_API,
        JsonMap::new(),
        "cna=test-anon",
        &intl_personal(),
        &profile(),
        Some("personal-sec-token"),
    );
    assert!(with_token
        .iter()
        .any(|(key, value)| { *key == "sec_token" && value == "personal-sec-token" }));

    let without_token = build_personal_form(
        &Console,
        PERSONAL_USAGE_API,
        JsonMap::new(),
        "cna=test-anon",
        &intl_personal(),
        &profile(),
        None,
    );
    assert!(!without_token.iter().any(|(key, _)| *key == "sec_token"));
}

#[test]
fn personal_request_omits_captured_workspace_agent() {
    let params = build_personal_params_json(
        &Console,
        PERSONAL_USAGE_API,
        JsonMap::new(),
        "cna=test-anon",
        &intl_personal(),
        &profile(),
    );
    let value: Value = serde_json::from_str(&params).unwrap();
    let cornerstone = value
        .get("Data")
        .and_then(|data| data.get("cornerstoneParam"))
        .and_then(Value::as_object)
        .unwrap();

    assert!(!cornerstone.contains_key("switchAgent"));
    assert_eq!(cornerstone.get("switchUserType"), Some(&Value::from(3)));
}

#[test]
fn success_envelope_without_windows_is_transient() {
    let payload = r#"{
        "code": "SUCCESS",
        "successResponse": true,
        "errorCode": "",
        "data": {"success": true, "httpStatus": 200}
    }"#;
    assert!(personal_usage_success_without_windows(
        &Console,
        payload.as_bytes()
    ));
}

#[test]
fn success_envelope_with_windows_is_not_transient() {
    let payload = r#"{
        "code": "SUCCESS",
        "successResponse": true,
        "errorCode": "",
        "data": {"per5HourPercentage": 0.5}
    }"#;
    assert!(!personal_usage_success_without_windows(
        &Console,
        payload.as_bytes()
    ));
}

#[test]
fn parses_personal_usage_fixture_with_plan_name() {
    let usage = r#"{
        "code": "200",
        "data": {
            "DataV2": {
                "data": {
                    "success": true,
                    "data": {
                        "per5HourPercentage": 0.0009973083333333333,
                        "per5HourResetTime": 1784813220000,
                        "per1WeekPercentage": 0.0003014725,
                        "per1WeekResetTime": 1785234900000
                    }
                },
                "success": true,
                "httpStatus": 200
            }
        },
        "successResponse": true
    }"#;
    let subscription = r#"{"code": "200", "data": {"specCode": "pro", "planName": "pro"}}"#;
    let quota_config =
        r#"{"code": "200", "data": {"pro": {"five_hour": 1000000, "weekly": 5000000}}}"#;

    let snapshot = parse_personal_usage(
        &Console,
        usage.as_bytes(),
        Some(subscription.as_bytes()),
        Some(quota_config.as_bytes()),
    )
    .unwrap();

    assert_eq!(snapshot.plan_name.as_deref(), Some("Pro"));
    assert!((snapshot.five_hour_used_percent.unwrap() - 0.09973083333333333).abs() < 1e-9);
    assert!((snapshot.weekly_used_percent.unwrap() - 0.03014725).abs() < 1e-9);
    assert_eq!(snapshot.five_hour_total_quota, Some(1_000_000.0));
    assert_eq!(snapshot.weekly_total_quota, Some(5_000_000.0));
    assert!(snapshot.five_hour_resets_at.is_some());
    assert!(snapshot.weekly_resets_at.is_some());
    assert!(snapshot.monthly_used_percent.is_none());
    assert!(snapshot.monthly_resets_at.is_none());
    assert!(snapshot.used_quota.is_none() && snapshot.total_quota.is_none());
    assert!(snapshot.remaining_quota.is_none() && snapshot.resets_at.is_none());
}

#[test]
fn weekly_only_personal_payload_promotes_weekly_window() {
    let usage = r#"{
        "code": "200",
        "data": {
            "DataV2": {
                "ret": [{}],
                "data": {
                    "msg": "",
                    "code": "SUCCESS",
                    "data": {
                        "per1WeekResetTime": 1788640320000,
                        "per1WeekPercentage": 0.4145182484706
                    },
                    "success": true
                }
            },
            "success": true,
            "httpStatus": 200,
            "errorCode": "",
            "api": "zeldaHttp.apikeyMgr./tokenplan/personal/api/v2/usage",
            "errorMsg": ""
        },
        "successResponse": true
    }"#;

    let snapshot = parse_personal_usage(&Console, usage.as_bytes(), None, None).unwrap();
    assert!(snapshot.five_hour_used_percent.is_none());
    assert!((snapshot.weekly_used_percent.unwrap() - 41.45182484706).abs() < 1e-9);
    assert!(snapshot.weekly_resets_at.is_some());
    assert_eq!(snapshot.plan_name.as_deref(), Some("Personal"));
}

#[test]
fn monthly_only_personal_payload_promotes_monthly_window() {
    let usage = r#"{
        "code": "200",
        "data": {
            "DataV2": {
                "ret": [],
                "data": {
                    "msg": "Success.",
                    "code": "SUCCESS",
                    "data": {
                        "per1MonthPercentage": 0.15672352377046667,
                        "per1MonthResetTime": 1790697600000
                    },
                    "requestId": "00000000-0000-0000-0000-000000000000",
                    "success": true
                }
            },
            "success": true,
            "httpStatus": 200,
            "errorCode": "",
            "api": "zeldaHttp.apikeyMgr./tokenplan/personal/api/v2/usage",
            "errorMsg": ""
        },
        "httpStatusCode": "200",
        "requestId": "00000000-0000-0000-0000-000000000000",
        "successResponse": true
    }"#;

    // A monthly lane is a real window: it must not be retried as transient.
    assert!(!personal_usage_success_without_windows(
        &Console,
        usage.as_bytes()
    ));

    let snapshot = parse_personal_usage(&Console, usage.as_bytes(), None, None).unwrap();
    assert!(snapshot.five_hour_used_percent.is_none());
    assert!(snapshot.weekly_used_percent.is_none());
    assert!((snapshot.monthly_used_percent.unwrap() - 15.672352377046667).abs() < 1e-9);
    assert!(snapshot.monthly_resets_at.is_some());
}

#[test]
fn personal_payload_with_all_three_lanes_fills_tertiary() {
    let usage = r#"{
        "code": "200",
        "successResponse": true,
        "data": {
            "success": true,
            "httpStatus": 200,
            "errorCode": "",
            "DataV2": {
                "data": {
                    "success": true,
                    "data": {
                        "per5HourPercentage": 0.1,
                        "per1WeekPercentage": 0.2,
                        "per1MonthPercentage": 0.3,
                        "per1MonthResetTime": 1790697600000
                    }
                }
            }
        }
    }"#;

    let snapshot = parse_personal_usage(&Console, usage.as_bytes(), None, None).unwrap();
    assert!((snapshot.five_hour_used_percent.unwrap() - 10.0).abs() < 1e-9);
    assert!((snapshot.weekly_used_percent.unwrap() - 20.0).abs() < 1e-9);
    assert!((snapshot.monthly_used_percent.unwrap() - 30.0).abs() < 1e-9);
    assert_eq!(snapshot.monthly_resets_at, Some(1790697600000));
}

#[test]
fn usage_failures_are_told_apart() {
    let parse = |data: &str| parse_personal_usage(&Console, data.as_bytes(), None, None);
    assert!(matches!(
        parse(""),
        Err(ProviderError::Parse(message))
            if message == "Empty Alibaba Token Plan Personal response"
    ));
    assert!(matches!(
        parse("<html>login</html>"),
        Err(ProviderError::AuthRequired)
    ));
    assert!(matches!(
        parse("{\"a\":"),
        Err(ProviderError::Parse(message))
            if message == "Invalid Alibaba Token Plan Personal JSON response"
    ));
    assert!(matches!(
        parse("{\"errorMsg\": \"quota service unavailable\", \"per5HourPercentage\": 0.5}"),
        Err(ProviderError::Other(message)) if message == "quota service unavailable"
    ));
    for windowless in ["{\"code\": \"200\"}", "{\"per5HourPercentage\": null}"] {
        assert!(matches!(
            parse(windowless),
            Err(ProviderError::Parse(message))
                if message == "Missing Alibaba Token Plan Personal usage windows"
        ));
    }
}

#[test]
fn payloads_inside_texts_are_read() {
    let usage = r#"{"data": "{\"per1WeekPercentage\": 0.25}"}"#;
    let snapshot = parse_personal_usage(&Console, usage.as_bytes(), None, None).unwrap();
    assert_eq!(snapshot.weekly_used_percent, Some(25.0));
}

#[test]
fn envelopes_say_success_in_a_few_ways() {
    assert!(envelope_says_success(&json(
        r#"{"code": " success ", "successResponse": true}"#
    )));
    assert!(envelope_says_success(&json(
        r#"{"code": "200", "successResponse": true, "errorCode": 5}"#
    )));
    for text in [
        r#"{"code": 200, "successResponse": true}"#,
        r#"{"code": "200", "successResponse": "true"}"#,
        r#"{"code": "200", "successResponse": false}"#,
        r#"{"code": "200"}"#,
        r#"{"code": "201", "successResponse": true}"#,
        r#"{"code": "200", "successResponse": true, "errorCode": "X"}"#,
        "[]",
    ] {
        assert!(!envelope_says_success(&json(text)), "{}", text);
    }
    assert!(!personal_usage_success_without_windows(&Console, b"oops"));
    assert!(document_success_without_windows(
        &Console,
        json(r#"{"code": "200", "successResponse": true, "errorCode": "  "}"#)
    ));
}

#[test]
fn plans_are_named_by_the_first_telling_member() {
    let code = |text: &str| plan_code_from_bytes(&Console, text.as_bytes());
    assert_eq!(
        code(r#"{"data": {"plan_name": "x", "specCode": "  PRO "}}"#).as_deref(),
        Some("pro")
    );
    assert_eq!(
        code(r#"{"specCode": "  ", "spec_code": 7, "planName": "Straße İ"}"#).as_deref(),
        Some("straße i\u{307}")
    );
    assert_eq!(code(r#"{"specCode": ""}"#), None);
    assert_eq!(code(r#"{"data": []}"#), None);
    assert_eq!(code("no json"), None);
    assert_eq!(
        plan_of_object(&json(r#"{"plan_name": "Max"}"#)).as_deref(),
        Some("max")
    );
}

#[test]
fn plan_names_are_shown() {
    assert_eq!(display_plan_name("lite"), "Lite");
    assert_eq!(display_plan_name("standard"), "Standard");
    assert_eq!(display_plan_name("pro"), "Pro");
    assert_eq!(display_plan_name("max"), "Max");
    assert_eq!(display_plan_name("Pro"), "Pro");
    assert_eq!(display_plan_name("team plus"), "team plus");
}

#[test]
fn quotas_are_those_of_the_plan() {
    let totals =
        |text: &str| quota_totals_from_bytes(&Console, text.as_bytes(), "pro");
    assert_eq!(
        totals(r#"{"x": [{"pro": {"fiveHour": 5, "weekly": "7"}}]}"#),
        Some((Some(5.0), Some(7.0)))
    );
    assert_eq!(
        totals(r#"{"pro": {"five_hour": 1, "fiveHour": 2}}"#),
        Some((Some(1.0), None))
    );
    assert_eq!(totals(r#"{"pro": {}}"#), None);
    assert_eq!(totals(r#"{"pro": 3, "x": {"pro": {"weekly": 1}}}"#), None);
    assert_eq!(totals(r#"{"max": {"weekly": 1}}"#), None);
    assert_eq!(totals("?"), None);
}

#[test]
fn quotas_need_a_plan() {
    let usage = br#"{"per5HourPercentage": 0.5}"#;
    let quota = br#"{"pro": {"weekly": 1}}"#;
    let snapshot = parse_personal_usage(&Console, usage, None, Some(quota)).unwrap();
    assert_eq!(snapshot.weekly_total_quota, None);
    let subscription = br#"{"specCode": "pro"}"#;
    let snapshot =
        parse_personal_usage(&Console, usage, Some(subscription), Some(quota)).unwrap();
    assert_eq!(snapshot.weekly_total_quota, Some(1.0));
    assert_eq!(snapshot.five_hour_total_quota, None);
}

#[test]
fn first_value_is_searched_level_by_level_downwards() {
    let document = json(r#"{"a": {"k": 1}, "b": [{"k": 2}], "k": 3}"#);
    assert!(matches!(
        find_first_value_for_key(&document, "k"),
        Some(Json::Number(n)) if n.as_u64() == Some(3)
    ));
    let document = json(r#"{"z": {"k": 1}, "b": [[], {"x": 0}, {"k": 2}]}"#);
    assert!(matches!(
        find_first_value_for_key(&document, "k"),
        Some(Json::Number(n)) if n.as_u64() == Some(2)
    ));
    assert!(find_first_value_for_key(&document, "missing").is_none());
    assert!(find_first_value_for_key(&json("\"k\""), "k").is_none());
}

#[test]
fn objects_are_filled_in_key_order() {
    let filled = || {
        let mut map = JsonMap::new();
        map.insert("b".to_string(), integer_json(1));
        map.insert("a".to_string(), Json::Bool(true));
        map.insert("ab".to_string(), Json::Null);
        map.insert("b".to_string(), Json::Text("x\"y".to_string()));
        map.insert_object("B".to_string(), JsonMap::new());
        map
    };
    assert_eq!(
        filled().into_text(),
        r#"{"B":{},"a":true,"ab":null,"b":"x\"y"}"#
    );
    let document = filled().into_json();
    assert!(matches!(document.get("b"), Some(Json::Text(t)) if t == "x\"y"));
    assert!(document.get("c").is_none());
    match document {
        Json::Object(object) => {
            let keys: Vec<&str> = object.entries().iter().map(|(key, _)| key.as_str()).collect();
            assert_eq!(keys, vec!["B", "a", "ab", "b"]);
        }
        _ => panic!("an object"),
    }
}

#[test]
fn documents_survive_reading_and_writing() {
    let text = r#"{"a":[1,-2,0.5,null,true,"é\n"],"b":{"c":{}}}"#;
    assert_eq!(text_of(json(text)), text);
    assert_eq!(
        text_of(json(r#" {"z":1, "a":2, "z":3} "#)),
        r#"{"a":2,"z":3}"#
    );
    assert!(Json::parse(b"{} x").is_none());
    assert!(Json::parse(b"").is_none());
    assert_eq!(text_of(integer_json(18446744073709551615)), "18446744073709551615");
}

#[test]
fn summaries_show_key_paths_only() {
    assert_eq!(response_key_summary(b"<html>"), "non-json");
    assert_eq!(response_key_summary(b"7"), "");
    assert_eq!(
        response_key_summary(br#"{"data": {"list": [{"x": "secret"}, 1, 2, 3]}, "code": 200}"#),
        "code,data,data.list,data.list[0],data.list[0].x,data.list[1],data.list[2]"
    );
    assert_eq!(
        response_key_summary(br#"{"a": {"b": {"c": {"d": {"e": 1}}}}}"#),
        "a,a.b,a.b.c,a.b.c.d"
    );
    assert_eq!(response_key_summary(b"[[1]]"), "[0],[0][0]");
}

#[test]
fn summaries_of_equal_shapes_are_equal() {
    let a = json(r#"{"token": "one", "n": [1, {"k": true}]}"#);
    let b = json(r#"{"token": null, "n": ["two", {"k": 9}]}"#);
    assert_eq!(document_key_summary(&a), document_key_summary(&b));
    assert_eq!(document_key_summary(&a), "n,n[0],n[1],n[1].k,token");
}

#[test]
fn api_urls_are_put_together() {
    assert_eq!(
        personal_api_url("api.one", &intl_personal(), &profile()),
        "https://quota.example.com/data/api.json?action=IntlGateway&product=product_one&api=api.one&_v=undefined"
    );
}

#[test]
fn trace_ids_are_random_and_hyphenated() {
    let a = new_trace_id();
    let b = new_trace_id();
    assert_ne!(a, b);
    for id in [a, b] {
        assert_eq!(id.len(), 36);
        for (i, c) in id.chars().enumerate() {
            match i {
                8 | 13 | 18 | 23 => assert_eq!(c, '-'),
                14 => assert_eq!(c, '4'),
                19 => assert!("89ab".contains(c)),
                _ => assert!(c.is_ascii_digit() || ('a'..='f').contains(&c)),
            }
        }
    }
}

#[test]
fn params_say_what_is_asked_and_who_asks() {
    let mut data = JsonMap::new();
    data.insert("commodityCode".to_string(), Json::Text("plan".to_string()));
    data.insert("cornerstoneParam".to_string(), Json::Null);
    let document = personal_params_document(
        "trace",
        "api.one",
        data,
        Some("anon"),
        &intl_personal(),
        &profile(),
    );
    assert_eq!(
        document.into_text(),
        [
            r#"{"Api":"api.one","Data":{"commodityCode":"plan","cornerstoneParam":{"#,
            r#""X-Anonymous-Id":"anon","console":"ONE_CONSOLE","consoleSite":"INTL","#,
            r#""domain":"console.example.com","feTraceId":"trace","#,
            r#""feURL":"https://console.example.com/plan/personal","productCode":"p_efm","#,
            r#""protocol":"V2","switchUserType":3,"userNickName":"","userPrincipalName":"","#,
            r#""xsp_lang":"en-US"}},"V":"1.0"}"#,
        ]
        .concat()
    );
}

#[test]
fn domain_stands_between_scheme_and_path() {
    for (page, domain) in [
        ("http://https://a.b/c", "https:"),
        ("https://http://a.b/c", "a.b"),
        ("https://https://a.b", "a.b"),
        ("a.b/c/d", "a.b"),
        ("", ""),
    ] {
        let mut region = intl_personal();
        region.dashboard_url = page.to_string();
        let document =
            personal_params_document("t", "a", JsonMap::new(), None, &region, &profile());
        let value: Value = serde_json::from_str(&document.into_text()).unwrap();
        let cornerstone = &value["Data"]["cornerstoneParam"];
        assert_eq!(cornerstone["domain"], Value::from(domain), "{}", page);
        assert!(cornerstone.get("X-Anonymous-Id").is_none());
    }
}

#[test]
fn forms_leave_out_blank_tokens() {
    let form = |token: Option<&str>| {
        personal_form_fields("{}".to_string(), &intl_personal(), &profile(), token)
    };
    let plain = vec![
        ("product", "product_one".to_string()),
        ("action", "IntlGateway".to_string()),
        ("region", "ap-southeast-1".to_string()),
        ("language", "en-US".to_string()),
        ("params", "{}".to_string()),
    ];
    assert_eq!(form(None), plain);
    assert_eq!(form(Some(" \t")), plain);
    let mut with_token = plain;
    with_token.push(("sec_token", " x ".to_string()));
    assert_eq!(form(Some(" x ")), with_token);
}

#[test]
fn requests_carry_headers_and_a_timeout() {
    let region = intl_personal();
    let console = profile();
    let request = |cookie_header: &str, web_timeout: u64| {
        let fetch_context = FetchContext {
            manual_cookie_header: None,
            web_timeout,
        };
        let context = PersonalApiContext {
            cookie_header,
            region: &region,
            sec_token: Some("token"),
            fetch_context: &fetch_context,
            console: &console,
        };
        personal_request(&Console, &context, "api.one", JsonMap::new())
    };
    let plain = request("cna=1", 0);
    assert_eq!(plain.timeout_secs, 1);
    assert_eq!(plain.url, personal_api_url("api.one", &region, &console));
    assert_eq!(plain.headers.len(), 7);
    assert_eq!(plain.headers[0], ("Cookie", "cna=1".to_string()));
    assert_eq!(plain.headers[3].1, "https://gateway.example.com");
    assert_eq!(plain.form.len(), 6);
    let guarded = request("csrf=a; login_aliyunid_csrf=b", 30);
    assert_eq!(guarded.timeout_secs, 30);
    assert_eq!(guarded.headers[7], ("x-xsrf-token", "b".to_string()));
    assert_eq!(guarded.headers[8], ("x-csrf-token", "b".to_string()));
    assert_eq!(csrf_token(&Console, "csrf=a").as_deref(), Some("a"));
    assert_eq!(csrf_token(&Console, "x=a"), None);
    assert_eq!(
        personal_headers("h", &region, &console, None)[1].1,
        "application/json, text/plain, */*"
    );
}

#[test]
fn statuses_decide_over_answers() {
    assert_eq!(personal_response(200, vec![1, 2]).unwrap(), vec![1, 2]);
    assert_eq!(personal_response(299, vec![]).unwrap(), Vec::<u8>::new());
    for status in [401, 403] {
        assert!(matches!(
            personal_response(status, vec![1]),
            Err(ProviderError::AuthRequired)
        ));
    }
    for (status, line) in [
        (404, "404 Not Found"),
        (302, "302 Found"),
        (100, "100 Continue"),
        (999, "999 <unknown status code>"),
    ] {
        match personal_response(status, vec![1]) {
            Err(ProviderError::Other(message)) => assert_eq!(
                message,
                format!("Alibaba Token Plan Personal API error: HTTP {}", line)
            ),
            _ => panic!("status {} is a failure", status),
        }
    }
}

#[test]
fn verdicts_depend_on_answer_and_attempt() {
    let failure = || Err::<_, ProviderError>(ProviderError::AuthRequired);
    assert!(matches!(
        judge_usage::<f64, i64>(0, failure(), true),
        UsageVerdict::Retry
    ));
    assert!(matches!(
        judge_usage::<f64, i64>(1, failure(), true),
        UsageVerdict::Retry
    ));
    assert!(matches!(
        judge_usage::<f64, i64>(2, failure(), true),
        UsageVerdict::Stop(Err(ProviderError::Other(message)))
            if message == "Alibaba Token Plan usage is temporarily unavailable; it will refresh automatically."
    ));
    assert!(matches!(
        judge_usage::<f64, i64>(usize::MAX, failure(), true),
        UsageVerdict::Stop(Err(ProviderError::Other(_)))
    ));
    assert!(matches!(
        judge_usage::<f64, i64>(0, failure(), false),
        UsageVerdict::Stop(Err(ProviderError::AuthRequired))
    ));
}

/// Runs a fetch against canned answers; returns what was asked for, and how it
/// ended.
fn run(
    mut answers: Vec<Result<&str, &'static str>>,
) -> (Vec<String>, Result<Option<f64>, String>) {
    let console = profile();
    let (mut fetch, mut action) =
        PersonalFetch::begin::<f64, i64, &'static str>(&console, &intl_personal());
    let mut log: Vec<String> = Vec::new();
    loop {
        let event = match action {
            FetchAction::Post {
                api,
                data_parameters,
            } => {
                log.push(format!("{} {}", api, data_parameters.into_text()));
                FetchEvent::Posted(answers.remove(0).map(|body| body.as_bytes().to_vec()))
            }
            FetchAction::Sleep { millis } => {
                assert_eq!(millis, RETRY_DELAY_MILLIS);
                log.push("sleep".to_string());
                FetchEvent::Slept
            }
            FetchAction::Finish(outcome) => {
                assert!(matches!(fetch.phase(), FetchPhase::Ended));
                assert!(!fetch.is_waiting_for(&FetchEvent::<()>::Slept));
                let outcome = match outcome {
                    Ok(snapshot) => Ok(snapshot.weekly_total_quota),
                    Err(FetchFailure::Request(error)) => Err(error.to_string()),
                    Err(FetchFailure::Provider(error)) => Err(format!("{:?}", error)),
                };
                return (log, outcome);
            }
        };
        assert!(fetch.is_waiting_for(&event));
        let other = match event {
            FetchEvent::Posted(_) => FetchEvent::Slept,
            FetchEvent::Slept => FetchEvent::Posted(Err("")),
        };
        assert!(!fetch.is_waiting_for(&other));
        let step = fetch.advance(&Console, &console, event);
        fetch = step.0;
        action = step.1;
    }
}

const WINDOWLESS: &str = r#"{"code": "200", "successResponse": true}"#;

#[test]
fn fetch_asks_in_order_and_uses_all_answers() {
    let (log, outcome) = run(vec![
        Ok(r#"{"specCode": "pro"}"#),
        Ok(r#"{"pro": {"weekly": 7}}"#),
        Ok(r#"{"per1WeekPercentage": 0.5}"#),
    ]);
    assert_eq!(
        log,
        vec![
            r#"api.subscription {"commodityCode":"plan_intl"}"#.to_string(),
            "api.quota {}".to_string(),
            format!("{} {{}}", PERSONAL_USAGE_API),
        ]
    );
    assert_eq!(outcome, Ok(Some(7.0)));
}

#[test]
fn fetch_does_without_the_optional_answers() {
    let (log, outcome) = run(vec![
        Err("down"),
        Err("down"),
        Ok(r#"{"per1WeekPercentage": 0.5}"#),
    ]);
    assert_eq!(log.len(), 3);
    assert_eq!(outcome, Ok(None));
}

#[test]
fn fetch_retries_windowless_successes_only() {
    let (log, outcome) = run(vec![
        Err("x"),
        Err("x"),
        Ok(WINDOWLESS),
        Ok(r#"{"per1WeekPercentage": 0.5}"#),
    ]);
    assert_eq!(outcome, Ok(None));
    assert_eq!(log[3], "sleep");
    assert_eq!(log.len(), 5);

    let (log, outcome) = run(vec![
        Err("x"),
        Err("x"),
        Ok(WINDOWLESS),
        Ok(WINDOWLESS),
        Ok(WINDOWLESS),
    ]);
    assert_eq!(log.iter().filter(|line| *line == "sleep").count(), 2);
    assert_eq!(
        outcome,
        Err("Other(\"Alibaba Token Plan usage is temporarily unavailable; it will refresh automatically.\")".to_string())
    );

    let (log, outcome) = run(vec![Err("x"), Err("x"), Ok("{}")]);
    assert_eq!(log.len(), 3);
    assert!(outcome.unwrap_err().contains("Missing"));

    let (log, outcome) = run(vec![Err("x"), Err("x"), Ok(WINDOWLESS), Err("gone")]);
    assert_eq!(log.len(), 5);
    assert_eq!(outcome, Err("gone".to_string()));
}

#[test]
fn usage_is_read_alike_whatever_the_other_answers_are() {
    let usage = br#"{"per5HourPercentage": 0.25, "per5HourResetTime": 7}"#;
    let subscription: &[u8] = br#"{"specCode": "pro"}"#;
    let quota: &[u8] = br#"{"pro": {"weekly": 7}}"#;
    let nameless: &[u8] = br#"{"specCode": "  "}"#;
    let broken: &[u8] = b"{";
    for (subscription_data, quota_data, name, weekly) in [
        (None, None, "Personal", None),
        (None, Some(quota), "Personal", None),
        (Some(subscription), None, "Pro", None),
        (Some(subscription), Some(broken), "Pro", None),
        (Some(broken), Some(quota), "Personal", None),
        (Some(nameless), Some(quota), "Personal", None),
        (Some(subscription), Some(quota), "Pro", Some(7.0)),
    ] {
        let snapshot =
            parse_personal_usage(&Console, usage, subscription_data, quota_data).unwrap();
        assert_eq!(snapshot.five_hour_used_percent, Some(25.0));
        assert_eq!(snapshot.five_hour_resets_at, Some(7));
        assert_eq!(snapshot.weekly_used_percent, None);
        assert_eq!(snapshot.monthly_used_percent, None);
        assert_eq!(snapshot.used_quota, None);
        assert_eq!(snapshot.total_quota, None);
        assert_eq!(snapshot.remaining_quota, None);
        assert_eq!(snapshot.resets_at, None);
        assert_eq!(snapshot.plan_name.as_deref(), Some(name));
        assert_eq!(snapshot.five_hour_total_quota, None);
        assert_eq!(snapshot.weekly_total_quota, weekly);
    }
    for (subscription_data, quota_data) in [(None, None), (Some(subscription), Some(broken))] {
        assert!(matches!(
            parse_personal_usage(&Console, b"<html>", subscription_data, quota_data),
            Err(ProviderError::AuthRequired)
        ));
    }
}

#[test]
fn one_reading_gives_one_usage() {
    let subscription: &[u8] = br#"{"specCode": "pro"}"#;
    let quota: &[u8] = br#"{"pro": {"five_hour": 5}}"#;
    let reading = || {
        read_personal_usage(
            &Console,
            br#"{"per1WeekPercentage": 0.5, "per1WeekResetTime": 3}"#,
        )
    };
    let plain = complete_usage(&Console, reading(), None, Some(quota)).unwrap();
    let full = complete_usage(&Console, reading(), Some(subscription), Some(quota)).unwrap();
    assert_eq!(plain.weekly_used_percent, Some(50.0));
    assert_eq!(plain.weekly_used_percent, full.weekly_used_percent);
    assert_eq!(plain.weekly_resets_at, Some(3));
    assert_eq!(plain.weekly_resets_at, full.weekly_resets_at);
    assert_eq!(plain.plan_name.as_deref(), Some("Personal"));
    assert_eq!(full.plan_name.as_deref(), Some("Pro"));
    assert_eq!(plain.five_hour_total_quota, None);
    assert_eq!(full.five_hour_total_quota, Some(5.0));

    let failed = read_personal_usage(&Console, br#"{"errorMsg": "no quota"}"#);
    assert!(matches!(
        complete_usage(&Console, failed, Some(subscription), Some(quota)),
        Err(ProviderError::Other(message)) if message == "no quota"
    ));

    let assembled = assemble_snapshot::<u8, u8>(
        UsageReading {
            windows: UsageWindows {
                five_hour: Some(1),
                weekly: Some(2),
                monthly: Some(3),
            },
            five_hour_resets_at: Some(4),
            weekly_resets_at: Some(5),
            monthly_resets_at: Some(6),
        },
        Some("team".to_string()),
        Some((Some(7), None)),
    );
    assert_eq!(assembled.plan_name.as_deref(), Some("team"));
    assert_eq!(assembled.five_hour_used_percent, Some(1));
    assert_eq!(assembled.weekly_used_percent, Some(2));
    assert_eq!(assembled.monthly_used_percent, Some(3));
    assert_eq!(assembled.five_hour_resets_at, Some(4));
    assert_eq!(assembled.weekly_resets_at, Some(5));
    assert_eq!(assembled.monthly_resets_at, Some(6));
    assert_eq!(assembled.five_hour_total_quota, Some(7));
    assert_eq!(assembled.weekly_total_quota, None);
}

#[test]
fn fetch_ends_with_the_first_readable_usage() {
    let (log, outcome) = run(vec![
        Ok(r#"{"specCode": "max"}"#),
        Ok(r#"{"max": {"weekly": 9}}"#),
        Ok(WINDOWLESS),
        Ok(WINDOWLESS),
        Ok(r#"{"per1MonthPercentage": 0.5}"#),
    ]);
    assert_eq!(log.len(), 7);
    assert_eq!(outcome, Ok(Some(9.0)));

    let (log, outcome) = run(vec![Err("x"), Err("x"), Ok(WINDOWLESS), Ok("<html>")]);
    assert_eq!(log.len(), 5);
    assert_eq!(outcome, Err("AuthRequired".to_string()));
}
