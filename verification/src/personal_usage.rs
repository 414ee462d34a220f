//! The answers of the personal plan's console API: the windows that report
//! usage, the plan, and its quotas.

use crate::console::{
    expands, finds_object, looks_like_login, reads_date, reads_number, reads_percentage,
    reports_failure, ConsoleSupport,
};
use crate::error::{fails_with, ErrorView, ProviderError};
use crate::json::{
    find_first_value_for_key, first_value, member, member_text, parsed_json, Json, JsonView,
};
use crate::text::{
    equal_ignoring_case, is_ascii_text, lowercase, lowered, same_ignoring_case, same_text,
    str_views, text_view, to_lowercase, trim, trimmed,
};
use vstd::prelude::*;

verus! {

/// A plan's usage at one point in time. `N` is a quantity, `D` a point in time.
#[derive(Debug)]
pub struct TokenPlanSnapshot<N, D> {
    pub plan_name: Option<String>,
    pub used_quota: Option<N>,
    pub total_quota: Option<N>,
    pub remaining_quota: Option<N>,
    pub resets_at: Option<D>,
    pub five_hour_used_percent: Option<N>,
    pub five_hour_total_quota: Option<N>,
    pub five_hour_resets_at: Option<D>,
    pub weekly_used_percent: Option<N>,
    pub weekly_total_quota: Option<N>,
    pub weekly_resets_at: Option<D>,
    pub monthly_used_percent: Option<N>,
    pub monthly_resets_at: Option<D>,
}

/// The members that report a usage window. Which ones a plan has depends on the
/// subscription.
pub open spec fn window_keys() -> Seq<Seq<char>> {
    seq!["per5HourPercentage"@, "per1WeekPercentage"@, "per1MonthPercentage"@]
}

/// The members that name a plan, the most telling first.
pub open spec fn plan_keys() -> Seq<Seq<char>> {
    seq!["specCode"@, "spec_code"@, "planName"@, "plan_name"@]
}

/// Whether the envelope says that all went well.
pub open spec fn says_success(document: JsonView) -> bool {
    &&& match member_text(document, "code"@) {
        Some(code) => same_ignoring_case(trimmed(code), "SUCCESS"@) || trimmed(code) == "200"@,
        None => false,
    }
    &&& member(document, "successResponse"@) == Some(JsonView::Bool(true))
    &&& match member_text(document, "errorCode"@) {
        Some(code) => trimmed(code).len() == 0,
        None => true,
    }
}

fn text_of<'a>(document: &'a Json, key: &str) -> (r: Option<&'a str>)
    ensures
        match r {
            Some(text) => member_text(document@, key@) == Some(text@),
            None => member_text(document@, key@) is None,
        },
{
    match document.get(key) {
        Some(value) => value.as_str(),
        None => None,
    }
}

/// Whether the envelope of an opened answer says that all went well.
pub fn envelope_says_success(document: &Json) -> (r: bool)
    ensures
        r == says_success(document@),
{
    let code_success: bool = match text_of(document, "code") {
        Some(code) => {
            let code: &str = trim(code);
            equal_ignoring_case(code, "SUCCESS") || same_text(code, "200")
        },
        None => false,
    };
    let response_success: bool = match document.get("successResponse") {
        Some(value) => match value.as_bool() {
            Some(b) => b,
            None => false,
        },
        None => false,
    };
    let error_empty: bool = match text_of(document, "errorCode") {
        Some(code) => trim(code).is_empty(),
        None => true,
    };
    code_success && response_success && error_empty
}

/// Whether `r` tells of an answer that it is a success without usage windows.
pub open spec fn is_windowless_success<S: ConsoleSupport>(
    support: S,
    document: Json,
    r: bool,
) -> bool {
    exists|expanded: Json, windows: Option<Json>|
        #[trigger] expands(support, document, expanded) && #[trigger] finds_object(
            support,
            expanded,
            window_keys(),
            windows,
        ) && r == (windows is None && says_success(expanded@))
}

fn find_windows<S: ConsoleSupport>(support: &S, expanded: &Json) -> (r: Option<Json>)
    ensures
        finds_object(*support, *expanded, window_keys(), r),
{
    let keys: [&str; 3] = ["per5HourPercentage", "per1WeekPercentage", "per1MonthPercentage"];
    let keys: &[&str] = keys.as_slice();
    assert(str_views(keys@) =~= window_keys());
    support.find_object_containing_any_of(expanded, keys)
}

/// Whether an answer is a success without usage windows.
pub fn document_success_without_windows<S: ConsoleSupport>(support: &S, document: Json) -> (r: bool)
    ensures
        is_windowless_success(*support, document, r),
{
    let expanded: Json = support.expand_json_strings(document);
    let windows: Option<Json> = find_windows(support, &expanded);
    assert(expands(*support, document, expanded));
    if windows.is_some() {
        return false;
    }
    envelope_says_success(&expanded)
}

/// Whether `r` tells of the bytes of an answer that it is a success without
/// usage windows.
pub open spec fn is_windowless_success_of<S: ConsoleSupport>(
    support: S,
    data: Seq<u8>,
    r: bool,
) -> bool {
    match parsed_json(data) {
        Some(view) => exists|document: Json|
            document@ == view && #[trigger] is_windowless_success(support, document, r),
        None => !r,
    }
}

/// Whether an answer is a success without usage windows, as the gateway gives
/// for a while. What is no document is not.
pub fn personal_usage_success_without_windows<S: ConsoleSupport>(support: &S, data: &[u8]) -> (r:
    bool)
    ensures
        is_windowless_success_of(*support, data@, r),
{
    match Json::parse(data) {
        Some(document) => document_success_without_windows(support, document),
        None => false,
    }
}

/// The plan that an object names: the first of the keys whose text is not
/// blank, trimmed and in lower case.
pub open spec fn named_plan(object: JsonView, keys: Seq<Seq<char>>) -> Option<Seq<char>>
    decreases keys.len(),
{
    if keys.len() == 0 {
        None
    } else {
        match member_text(object, keys[0]) {
            Some(text) if trimmed(text).len() > 0 && lowercase(trimmed(text)).len() > 0 => Some(
                lowercase(trimmed(text)),
            ),
            _ => named_plan(object, keys.skip(1)),
        }
    }
}

/// The first text under the keys that is not blank, trimmed.
pub open spec fn naming_text(object: JsonView, keys: Seq<Seq<char>>) -> Option<Seq<char>>
    decreases keys.len(),
{
    if keys.len() == 0 {
        None
    } else {
        match member_text(object, keys[0]) {
            Some(text) if trimmed(text).len() > 0 => Some(trimmed(text)),
            _ => naming_text(object, keys.skip(1)),
        }
    }
}

/// A plan named in ASCII goes by that text in lower case; where nothing names
/// one there is none.
pub open spec fn names_plainly(object: JsonView, code: Option<Seq<char>>) -> bool {
    match naming_text(object, plan_keys()) {
        Some(text) => is_ascii_text(text) ==> code == Some(lowered(text)),
        None => code is None,
    }
}

/// The plan that an object names.
pub fn plan_of_object(object: &Json) -> (r: Option<String>)
    ensures
        text_view(r) == named_plan(object@, plan_keys()),
        names_plainly(object@, text_view(r)),
{
    let keys: [&str; 4] = ["specCode", "spec_code", "planName", "plan_name"];
    let ghost all = plan_keys();
    let mut i: usize = 0;
    assert(all.skip(0) =~= all);
    while i < 4
        invariant
            i <= 4,
            all == plan_keys(),
            str_views(keys@) =~= all,
            named_plan(object@, all) == named_plan(object@, all.skip(i as int)),
            naming_text(object@, all) == naming_text(object@, all.skip(i as int)) || (naming_text(
                object@,
                all,
            ) matches Some(text) && !is_ascii_text(text)),
        decreases 4 - i,
    {
        assert(all.skip(i as int).skip(1) =~= all.skip(i + 1));
        assert(all[i as int] == keys@[i as int]@);
        if let Some(raw) = text_of(object, keys[i]) {
            let normalized: String = to_lowercase(trim(raw));
            if !normalized.as_str().is_empty() {
                return Some(normalized);
            }
        }
        i += 1;
    }
    None
}

/// Whether `code` is the plan that an answer names.
pub open spec fn is_plan_code<S: ConsoleSupport>(
    support: S,
    document: Json,
    code: Option<Seq<char>>,
) -> bool {
    exists|expanded: Json, plan: Option<Json>|
        #[trigger] expands(support, document, expanded) && #[trigger] finds_object(
            support,
            expanded,
            plan_keys(),
            plan,
        ) && match plan {
            Some(object) => code == named_plan(object@, plan_keys()) && names_plainly(
                object@,
                code,
            ),
            None => code is None,
        }
}

/// The plan that an answer names.
pub fn plan_code_from_document<S: ConsoleSupport>(support: &S, document: Json) -> (r: Option<
    String,
>)
    ensures
        is_plan_code(*support, document, text_view(r)),
{
    let expanded: Json = support.expand_json_strings(document);
    let keys: [&str; 4] = ["specCode", "spec_code", "planName", "plan_name"];
    let keys: &[&str] = keys.as_slice();
    assert(str_views(keys@) =~= plan_keys());
    let plan: Option<Json> = support.find_object_containing_any_of(&expanded, keys);
    assert(expands(*support, document, expanded));
    assert(finds_object(*support, expanded, plan_keys(), plan));
    match &plan {
        Some(object) => plan_of_object(object),
        None => None,
    }
}

/// Whether `code` is the plan that the bytes of an answer name.
pub open spec fn is_plan_code_of<S: ConsoleSupport>(
    support: S,
    data: Seq<u8>,
    code: Option<Seq<char>>,
) -> bool {
    match parsed_json(data) {
        Some(view) => exists|document: Json|
            document@ == view && #[trigger] is_plan_code(support, document, code),
        None => code is None,
    }
}

/// The plan that the bytes of an answer name.
pub fn plan_code_from_bytes<S: ConsoleSupport>(support: &S, data: &[u8]) -> (r: Option<String>)
    ensures
        is_plan_code_of(*support, data@, text_view(r)),
{
    match Json::parse(data) {
        Some(document) => plan_code_from_document(support, document),
        None => None,
    }
}

/// The name that a plan is shown by.
pub open spec fn shown_name(plan_code: Seq<char>) -> Seq<char> {
    if plan_code == "lite"@ {
        "Lite"@
    } else if plan_code == "standard"@ {
        "Standard"@
    } else if plan_code == "pro"@ {
        "Pro"@
    } else if plan_code == "max"@ {
        "Max"@
    } else {
        plan_code
    }
}

/// The name that a plan is shown by. A plan not known is shown by its code.
pub fn display_plan_name(plan_code: &str) -> (r: String)
    ensures
        r@ == shown_name(plan_code@),
{
    if same_text(plan_code, "lite") {
        "Lite".to_string()
    } else if same_text(plan_code, "standard") {
        "Standard".to_string()
    } else if same_text(plan_code, "pro") {
        "Pro".to_string()
    } else if same_text(plan_code, "max") {
        "Max".to_string()
    } else {
        plan_code.to_string()
    }
}

/// The quotas of a plan: for five hours, and for a week.
pub type QuotaTotals<N> = (Option<N>, Option<N>);

/// Whether `number` is the five-hour quota of an object, under either spelling
/// of its key.
pub open spec fn reads_five_hour_total<S: ConsoleSupport>(
    support: S,
    object: Json,
    number: Option<S::Number>,
) -> bool {
    exists|snake: Option<S::Number>|
        #[trigger] reads_number(support, object, "five_hour"@, snake) && (if snake is Some {
            number == snake
        } else {
            reads_number(support, object, "fiveHour"@, number)
        })
}

/// Whether `totals` are the quotas that an object gives; none where it gives
/// neither.
pub open spec fn are_object_totals<S: ConsoleSupport>(
    support: S,
    object: Json,
    totals: Option<QuotaTotals<S::Number>>,
) -> bool {
    exists|five_hour: Option<S::Number>, weekly: Option<S::Number>|
        #[trigger] reads_five_hour_total(support, object, five_hour) && #[trigger] reads_number(
            support,
            object,
            "weekly"@,
            weekly,
        ) && totals == (if five_hour is None && weekly is None {
            None
        } else {
            Some((five_hour, weekly))
        })
}

fn five_hour_total<S: ConsoleSupport>(support: &S, object: &Json) -> (r: Option<S::Number>)
    ensures
        reads_five_hour_total(*support, *object, r),
{
    let snake: Option<S::Number> = support.number_field(object, "five_hour");
    assert(reads_number(*support, *object, "five_hour"@, snake));
    match snake {
        Some(n) => Some(n),
        None => {
            let camel: Option<S::Number> = support.number_field(object, "fiveHour");
            assert(reads_number(*support, *object, "fiveHour"@, camel));
            camel
        },
    }
}

/// The quotas that an object gives.
pub fn totals_of_object<S: ConsoleSupport>(support: &S, object: &Json) -> (r: Option<
    QuotaTotals<S::Number>,
>)
    ensures
        are_object_totals(*support, *object, r),
{
    let five_hour: Option<S::Number> = five_hour_total(support, object);
    let weekly: Option<S::Number> = support.number_field(object, "weekly");
    assert(reads_number(*support, *object, "weekly"@, weekly));
    if five_hour.is_none() && weekly.is_none() {
        return None;
    }
    Some((five_hour, weekly))
}

/// Whether `totals` are the quotas that an answer gives for the plan: those of
/// the first value under the plan's code, if that is an object.
pub open spec fn are_quota_totals<S: ConsoleSupport>(
    support: S,
    document: Json,
    plan_code: Seq<char>,
    totals: Option<QuotaTotals<S::Number>>,
) -> bool {
    exists|expanded: Json|
        #[trigger] expands(support, document, expanded) && match first_value(
            expanded@,
            plan_code,
        ) {
            Some(JsonView::Object(entries)) => exists|object: Json|
                object@ == JsonView::Object(entries) && #[trigger] are_object_totals(
                    support,
                    object,
                    totals,
                ),
            _ => totals is None,
        }
}

/// The quotas that an answer gives for the plan.
pub fn quota_totals_from_document<S: ConsoleSupport>(
    support: &S,
    document: Json,
    plan_code: &str,
) -> (r: Option<QuotaTotals<S::Number>>)
    ensures
        are_quota_totals(*support, document, plan_code@, r),
{
    let expanded: Json = support.expand_json_strings(document);
    assert(expands(*support, document, expanded));
    match find_first_value_for_key(&expanded, plan_code) {
        Some(object) => match object {
            Json::Object(_) => totals_of_object(support, object),
            _ => None,
        },
        None => None,
    }
}

/// Whether `totals` are the quotas that the bytes of an answer give for the
/// plan.
pub open spec fn are_quota_totals_of<S: ConsoleSupport>(
    support: S,
    data: Seq<u8>,
    plan_code: Seq<char>,
    totals: Option<QuotaTotals<S::Number>>,
) -> bool {
    match parsed_json(data) {
        Some(view) => exists|document: Json|
            document@ == view && #[trigger] are_quota_totals(
                support,
                document,
                plan_code,
                totals,
            ),
        None => totals is None,
    }
}

/// The quotas that the bytes of an answer give for the plan.
pub fn quota_totals_from_bytes<S: ConsoleSupport>(
    support: &S,
    data: &[u8],
    plan_code: &str,
) -> (r: Option<QuotaTotals<S::Number>>)
    ensures
        are_quota_totals_of(*support, data@, plan_code@, r),
{
    match Json::parse(data) {
        Some(document) => quota_totals_from_document(support, document, plan_code),
        None => None,
    }
}

/// How much of each usage window is used up, in percent; nothing for a window
/// that the plan does not have.
pub struct UsageWindows<N> {
    pub five_hour: Option<N>,
    pub weekly: Option<N>,
    pub monthly: Option<N>,
}

/// Whether `windows` are the usage windows that an object reports.
pub open spec fn reads_windows<S: ConsoleSupport>(
    support: S,
    usage: Json,
    windows: UsageWindows<S::Number>,
) -> bool {
    &&& reads_percentage(support, usage, "per5HourPercentage"@, windows.five_hour)
    &&& reads_percentage(support, usage, "per1WeekPercentage"@, windows.weekly)
    &&& reads_percentage(support, usage, "per1MonthPercentage"@, windows.monthly)
}

/// Whether no window is reported.
pub open spec fn no_window<N>(windows: UsageWindows<N>) -> bool {
    windows.five_hour is None && windows.weekly is None && windows.monthly is None
}

fn read_percentage<S: ConsoleSupport>(support: &S, usage: &Json, key: &str) -> (r: Option<S::Number>)
    ensures
        reads_percentage(*support, *usage, key@, r),
{
    let fraction: Option<S::Number> = support.number_field(usage, key);
    assert(reads_number(*support, *usage, key@, fraction));
    let ghost read = fraction;
    let percent: Option<S::Number> = support.percentage_points(fraction);
    assert(call_ensures(S::percentage_points, (support, read), percent));
    percent
}

/// The usage windows that an object reports.
pub fn read_usage_windows<S: ConsoleSupport>(support: &S, usage: &Json) -> (r: UsageWindows<
    S::Number,
>)
    ensures
        reads_windows(*support, *usage, r),
{
    let five_hour: Option<S::Number> = read_percentage(support, usage, "per5HourPercentage");
    let weekly: Option<S::Number> = read_percentage(support, usage, "per1WeekPercentage");
    let monthly: Option<S::Number> = read_percentage(support, usage, "per1MonthPercentage");
    UsageWindows { five_hour, weekly, monthly }
}

/// What an answer about usage reports: the windows, and when they are reset.
pub struct UsageReading<N, D> {
    pub windows: UsageWindows<N>,
    pub five_hour_resets_at: Option<D>,
    pub weekly_resets_at: Option<D>,
    pub monthly_resets_at: Option<D>,
}

fn read_date<S: ConsoleSupport>(support: &S, usage: &Json, key: &str) -> (r: Option<S::Date>)
    ensures
        reads_date(*support, *usage, key@, r),
{
    let date: Option<S::Date> = support.date_field(usage, key);
    assert(call_ensures(S::date_field, (support, usage, key), date));
    date
}

/// The failure of an answer that reports no usage window.
pub open spec fn missing_windows() -> ErrorView {
    ErrorView::Parse("Missing Alibaba Token Plan Personal usage windows"@)
}

/// Whether `r` is what a usage object reports: one window at least, with the
/// reset times, or that there is none.
pub open spec fn is_object_reading<S: ConsoleSupport>(
    support: S,
    usage: Json,
    r: Result<UsageReading<S::Number, S::Date>, ProviderError>,
) -> bool {
    exists|windows: UsageWindows<S::Number>|
        #[trigger] reads_windows(support, usage, windows) && if no_window(windows) {
            fails_with(r, missing_windows())
        } else {
            r matches Ok(reading) && {
                &&& reading.windows == windows
                &&& reads_date(support, usage, "per5HourResetTime"@, reading.five_hour_resets_at)
                &&& reads_date(support, usage, "per1WeekResetTime"@, reading.weekly_resets_at)
                &&& reads_date(support, usage, "per1MonthResetTime"@, reading.monthly_resets_at)
            }
        }
}

/// What a usage object reports.
pub fn read_usage_object<S: ConsoleSupport>(support: &S, usage: &Json) -> (r: Result<
    UsageReading<S::Number, S::Date>,
    ProviderError,
>)
    ensures
        is_object_reading(*support, *usage, r),
{
    let windows: UsageWindows<S::Number> = read_usage_windows(support, usage);
    if windows.five_hour.is_none() && windows.weekly.is_none() && windows.monthly.is_none() {
        assert(no_window(windows));
        return Err(
            ProviderError::Parse("Missing Alibaba Token Plan Personal usage windows".to_string()),
        );
    }
    Ok(
        UsageReading {
            windows,
            five_hour_resets_at: read_date(support, usage, "per5HourResetTime"),
            weekly_resets_at: read_date(support, usage, "per1WeekResetTime"),
            monthly_resets_at: read_date(support, usage, "per1MonthResetTime"),
        },
    )
}

/// Whether `r` is what an answer about usage reports: its failure, or else what
/// its usage object reports.
pub open spec fn is_document_reading<S: ConsoleSupport>(
    support: S,
    document: Json,
    r: Result<UsageReading<S::Number, S::Date>, ProviderError>,
) -> bool {
    exists|expanded: Json, verdict: Result<(), ProviderError>|
        #[trigger] expands(support, document, expanded) && #[trigger] reports_failure(
            support,
            expanded,
            verdict,
        ) && match verdict {
            Err(error) => r == Err::<UsageReading<S::Number, S::Date>, ProviderError>(error),
            Ok(_) => exists|windows: Option<Json>|
                #[trigger] finds_object(support, expanded, window_keys(), windows)
                    && match windows {
                    Some(usage) => is_object_reading(support, usage, r),
                    None => fails_with(r, missing_windows()),
                },
        }
}

/// What an answer about usage reports.
pub fn read_usage_document<S: ConsoleSupport>(support: &S, document: Json) -> (r: Result<
    UsageReading<S::Number, S::Date>,
    ProviderError,
>)
    ensures
        is_document_reading(*support, document, r),
{
    let expanded: Json = support.expand_json_strings(document);
    assert(expands(*support, document, expanded));
    let verdict: Result<(), ProviderError> = support.throw_if_error_payload(&expanded);
    assert(reports_failure(*support, expanded, verdict));
    if let Err(error) = verdict {
        return Err(error);
    }
    let windows: Option<Json> = find_windows(support, &expanded);
    match &windows {
        Some(usage) => read_usage_object(support, usage),
        None => Err(
            ProviderError::Parse("Missing Alibaba Token Plan Personal usage windows".to_string()),
        ),
    }
}

/// Whether `r` is what the bytes of an answer about usage report.
pub open spec fn is_usage_reading<S: ConsoleSupport>(
    support: S,
    usage: Seq<u8>,
    r: Result<UsageReading<S::Number, S::Date>, ProviderError>,
) -> bool {
    if usage.len() == 0 {
        fails_with(r, ErrorView::Parse("Empty Alibaba Token Plan Personal response"@))
    } else {
        match parsed_json(usage) {
            None => exists|login: bool|
                #[trigger] looks_like_login(support, usage, login) && fails_with(
                    r,
                    if login {
                        ErrorView::AuthRequired
                    } else {
                        ErrorView::Parse("Invalid Alibaba Token Plan Personal JSON response"@)
                    },
                ),
            Some(view) => exists|document: Json|
                document@ == view && #[trigger] is_document_reading(support, document, r),
        }
    }
}

/// What the bytes of an answer about usage report. An answer that is no
/// document is a login page, or cannot be read.
pub fn read_personal_usage<S: ConsoleSupport>(support: &S, usage_data: &[u8]) -> (r: Result<
    UsageReading<S::Number, S::Date>,
    ProviderError,
>)
    ensures
        is_usage_reading(*support, usage_data@, r),
{
    if usage_data.len() == 0 {
        return Err(
            ProviderError::Parse("Empty Alibaba Token Plan Personal response".to_string()),
        );
    }
    match Json::parse(usage_data) {
        Some(document) => read_usage_document(support, document),
        None => {
            let login: bool = support.is_likely_login_html(usage_data);
            assert(call_ensures(S::is_likely_login_html, (support, usage_data), login));
            assert(looks_like_login(*support, usage_data@, login));
            if login {
                Err(ProviderError::AuthRequired)
            } else {
                Err(
                    ProviderError::Parse(
                        "Invalid Alibaba Token Plan Personal JSON response".to_string(),
                    ),
                )
            }
        },
    }
}

/// The name that a snapshot shows for the plan of this code.
pub open spec fn plan_title(code: Option<Seq<char>>) -> Seq<char> {
    match code {
        Some(c) => shown_name(c),
        None => "Personal"@,
    }
}

/// Whether `snapshot` puts together what an answer about usage reports, the plan
/// and its quotas.
pub open spec fn is_snapshot<N, D>(
    reading: UsageReading<N, D>,
    plan_code: Option<Seq<char>>,
    totals: Option<QuotaTotals<N>>,
    snapshot: TokenPlanSnapshot<N, D>,
) -> bool {
    &&& text_view(snapshot.plan_name) == Some(plan_title(plan_code))
    &&& snapshot.used_quota is None
    &&& snapshot.total_quota is None
    &&& snapshot.remaining_quota is None
    &&& snapshot.resets_at is None
    &&& snapshot.five_hour_used_percent == reading.windows.five_hour
    &&& snapshot.weekly_used_percent == reading.windows.weekly
    &&& snapshot.monthly_used_percent == reading.windows.monthly
    &&& snapshot.five_hour_total_quota == (match totals {
        Some(t) => t.0,
        None => None,
    })
    &&& snapshot.weekly_total_quota == (match totals {
        Some(t) => t.1,
        None => None,
    })
    &&& snapshot.five_hour_resets_at == reading.five_hour_resets_at
    &&& snapshot.weekly_resets_at == reading.weekly_resets_at
    &&& snapshot.monthly_resets_at == reading.monthly_resets_at
}

/// The snapshot of what an answer about usage reports, with the plan's code and
/// its quotas.
pub fn assemble_snapshot<N, D>(
    reading: UsageReading<N, D>,
    plan_code: Option<String>,
    totals: Option<QuotaTotals<N>>,
) -> (r: TokenPlanSnapshot<N, D>)
    ensures
        is_snapshot(reading, text_view(plan_code), totals, r),
{
    let plan_name: String = match &plan_code {
        Some(code) => display_plan_name(code.as_str()),
        None => "Personal".to_string(),
    };
    let (five_hour_total_quota, weekly_total_quota) = match totals {
        Some((five_hour, weekly)) => (five_hour, weekly),
        None => (None, None),
    };
    TokenPlanSnapshot {
        plan_name: Some(plan_name),
        used_quota: None,
        total_quota: None,
        remaining_quota: None,
        resets_at: None,
        five_hour_used_percent: reading.windows.five_hour,
        five_hour_total_quota,
        five_hour_resets_at: reading.five_hour_resets_at,
        weekly_used_percent: reading.windows.weekly,
        weekly_total_quota,
        weekly_resets_at: reading.weekly_resets_at,
        monthly_used_percent: reading.windows.monthly,
        monthly_resets_at: reading.monthly_resets_at,
    }
}

/// The model of an optional answer.
pub open spec fn bytes_view(data: Option<&[u8]>) -> Option<Seq<u8>> {
    match data {
        Some(d) => Some(d@),
        None => None,
    }
}

/// Whether `code` is the plan that the answer about the subscription names, if
/// there is one.
pub open spec fn is_subscribed_plan<S: ConsoleSupport>(
    support: S,
    subscription: Option<Seq<u8>>,
    code: Option<Seq<char>>,
) -> bool {
    match subscription {
        Some(data) => is_plan_code_of(support, data, code),
        None => code is None,
    }
}

/// Whether `totals` are the quotas that the answer about quotas gives for the
/// plan, if both are there.
pub open spec fn are_plan_totals<S: ConsoleSupport>(
    support: S,
    quota_config: Option<Seq<u8>>,
    code: Option<Seq<char>>,
    totals: Option<QuotaTotals<S::Number>>,
) -> bool {
    match (quota_config, code) {
        (Some(data), Some(c)) => are_quota_totals_of(support, data, c, totals),
        _ => totals is None,
    }
}

/// Whether `r` completes what an answer about usage reports by what the other
/// two answers give. A failure stays.
pub open spec fn is_completion<S: ConsoleSupport>(
    support: S,
    reading: Result<UsageReading<S::Number, S::Date>, ProviderError>,
    subscription: Option<Seq<u8>>,
    quota_config: Option<Seq<u8>>,
    r: Result<TokenPlanSnapshot<S::Number, S::Date>, ProviderError>,
) -> bool {
    match reading {
        Err(error) => r == Err::<TokenPlanSnapshot<S::Number, S::Date>, ProviderError>(error),
        Ok(usage) => exists|code: Option<Seq<char>>, totals: Option<QuotaTotals<S::Number>>|
            #[trigger] is_subscribed_plan(support, subscription, code)
                && #[trigger] are_plan_totals(support, quota_config, code, totals) && (
            r matches Ok(snapshot) && is_snapshot(usage, code, totals, snapshot)),
    }
}

/// Completes what an answer about usage reports by the plan and the quotas that
/// the other two answers give.
pub fn complete_usage<S: ConsoleSupport>(
    support: &S,
    reading: Result<UsageReading<S::Number, S::Date>, ProviderError>,
    subscription_data: Option<&[u8]>,
    quota_config_data: Option<&[u8]>,
) -> (r: Result<TokenPlanSnapshot<S::Number, S::Date>, ProviderError>)
    ensures
        is_completion(
            *support,
            reading,
            bytes_view(subscription_data),
            bytes_view(quota_config_data),
            r,
        ),
{
    let usage: UsageReading<S::Number, S::Date> = match reading {
        Ok(usage) => usage,
        Err(error) => {
            return Err(error);
        },
    };
    let ghost reported = usage;
    let plan_code: Option<String> = match subscription_data {
        Some(data) => plan_code_from_bytes(support, data),
        None => None,
    };
    let ghost code = text_view(plan_code);
    assert(is_subscribed_plan(*support, bytes_view(subscription_data), code));
    let totals: Option<QuotaTotals<S::Number>> = match (quota_config_data, &plan_code) {
        (Some(data), Some(code)) => quota_totals_from_bytes(support, data, code.as_str()),
        _ => None,
    };
    let ghost given = totals;
    assert(are_plan_totals(*support, bytes_view(quota_config_data), code, given));
    let snapshot: TokenPlanSnapshot<S::Number, S::Date> = assemble_snapshot(
        usage,
        plan_code,
        totals,
    );
    assert(is_snapshot(reported, code, given, snapshot));
    Ok(snapshot)
}

/// Whether `r` is what the bytes of an answer about usage come to: what they
/// report, completed by what the other two answers give.
pub open spec fn is_parsed_usage<S: ConsoleSupport>(
    support: S,
    usage: Seq<u8>,
    subscription: Option<Seq<u8>>,
    quota_config: Option<Seq<u8>>,
    r: Result<TokenPlanSnapshot<S::Number, S::Date>, ProviderError>,
) -> bool {
    exists|reading: Result<UsageReading<S::Number, S::Date>, ProviderError>|
        #[trigger] is_usage_reading(support, usage, reading) && is_completion(
            support,
            reading,
            subscription,
            quota_config,
            r,
        )
}

/// The snapshot that an answer about usage gives, with the plan and the quotas
/// that the other two answers give.
pub fn parse_personal_usage<S: ConsoleSupport>(
    support: &S,
    usage_data: &[u8],
    subscription_data: Option<&[u8]>,
    quota_config_data: Option<&[u8]>,
) -> (r: Result<TokenPlanSnapshot<S::Number, S::Date>, ProviderError>)
    ensures
        is_parsed_usage(
            *support,
            usage_data@,
            bytes_view(subscription_data),
            bytes_view(quota_config_data),
            r,
        ),
{
    let reading: Result<UsageReading<S::Number, S::Date>, ProviderError> = read_personal_usage(
        support,
        usage_data,
    );
    complete_usage(support, reading, subscription_data, quota_config_data)
}

} // verus!
