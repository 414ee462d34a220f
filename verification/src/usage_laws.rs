//! What the answers about the personal plan come to, member by member.

use crate::console::{
    expands, finds_object, looks_like_login, reads_date, reads_number, reads_percentage,
    reports_failure, ConsoleSupport,
};
use crate::error::{fails_with, ErrorView, ProviderError};
use crate::json::{
    child, child_count, first_value, first_value_from, lookup, member, parsed_json, EntriesView,
    Json, JsonView,
};
use crate::json_laws::earlier_document_comes_first;
use crate::personal_laws::{reads_alike, same_object};
use crate::personal_usage::{
    are_object_totals, are_plan_totals, are_quota_totals, are_quota_totals_of, is_completion,
    is_document_reading, is_object_reading, is_parsed_usage, is_plan_code, is_subscribed_plan,
    is_usage_reading, is_windowless_success, is_windowless_success_of, missing_windows, named_plan,
    names_plainly, naming_text, no_window, plan_keys, reads_five_hour_total, reads_windows,
    says_success, shown_name, window_keys, QuotaTotals, TokenPlanSnapshot, UsageReading,
    UsageWindows,
};
use crate::text::{is_ascii_text, lowercase, lowered, str_views, text_view, trimmed};
use vstd::prelude::*;

verus! {

/// The keys under which an answer about usage reports a window.
pub open spec fn usage_keys() -> Seq<Seq<char>> {
    seq!["per5HourPercentage"@, "per1WeekPercentage"@, "per1MonthPercentage"@]
}

/// Whether each window of the snapshot is what the usage object holds under that
/// window's own keys: its percentage and its reset time.
pub open spec fn shows_windows_of<S: ConsoleSupport>(
    support: S,
    usage: Json,
    snapshot: TokenPlanSnapshot<S::Number, S::Date>,
) -> bool {
    &&& reads_percentage(support, usage, "per5HourPercentage"@, snapshot.five_hour_used_percent)
    &&& reads_date(support, usage, "per5HourResetTime"@, snapshot.five_hour_resets_at)
    &&& reads_percentage(support, usage, "per1WeekPercentage"@, snapshot.weekly_used_percent)
    &&& reads_date(support, usage, "per1WeekResetTime"@, snapshot.weekly_resets_at)
    &&& reads_percentage(support, usage, "per1MonthPercentage"@, snapshot.monthly_used_percent)
    &&& reads_date(support, usage, "per1MonthResetTime"@, snapshot.monthly_resets_at)
}

/// A snapshot shows what the usage object of its answer holds, each window under
/// its own keys, whatever other windows there are. The usage object is the one
/// with a window in the answer, opened up, which reports no failure.
pub proof fn snapshots_show_the_usage_object<S: ConsoleSupport>(
    support: S,
    usage: Seq<u8>,
    subscription: Option<Seq<u8>>,
    quota_config: Option<Seq<u8>>,
    snapshot: TokenPlanSnapshot<S::Number, S::Date>,
)
    requires
        is_parsed_usage(support, usage, subscription, quota_config, Ok(snapshot)),
    ensures
        exists|document: Json, expanded: Json, object: Json|
            parsed_json(usage) == Some(document@) && #[trigger] expands(
                support,
                document,
                expanded,
            ) && reports_failure(support, expanded, Ok(())) && #[trigger] finds_object(
                support,
                expanded,
                usage_keys(),
                Some(object),
            ) && shows_windows_of(support, object, snapshot),
{
    let reading = choose|reading: Result<UsageReading<S::Number, S::Date>, ProviderError>|
        #[trigger] is_usage_reading(support, usage, reading) && is_completion(
            support,
            reading,
            subscription,
            quota_config,
            Ok(snapshot),
        );
    let document = choose|document: Json|
        document@ == parsed_json(usage)->0 && #[trigger] is_document_reading(
            support,
            document,
            reading,
        );
    let (expanded, verdict) = choose|expanded: Json, verdict: Result<(), ProviderError>|
        #[trigger] expands(support, document, expanded) && #[trigger] reports_failure(
            support,
            expanded,
            verdict,
        ) && match verdict {
            Err(error) => reading == Err::<UsageReading<S::Number, S::Date>, ProviderError>(error),
            Ok(_) => exists|windows: Option<Json>|
                #[trigger] finds_object(support, expanded, window_keys(), windows)
                    && match windows {
                    Some(u) => is_object_reading(support, u, reading),
                    None => false,
                },
        };
    assert(verdict is Ok);
    assert(verdict->Ok_0 == ());
    assert(reports_failure(support, expanded, Ok(())));
    let windows = choose|windows: Option<Json>|
        #[trigger] finds_object(support, expanded, window_keys(), windows) && match windows {
            Some(u) => is_object_reading(support, u, reading),
            None => false,
        };
    assert(window_keys() =~= usage_keys());
    assert(windows == Some(windows->0));
    assert(finds_object(support, expanded, usage_keys(), Some(windows->0)));
}

/// Conventions that read a member by its key alone.
pub open spec fn reads_by_key<S: ConsoleSupport>(support: S) -> bool {
    &&& forall|a: Json, b: Json, key: Seq<char>, x: Option<S::Number>, y: Option<S::Number>|
        member(a@, key) == member(b@, key) && #[trigger] reads_percentage(support, a, key, x)
            && #[trigger] reads_percentage(support, b, key, y) ==> x == y
    &&& forall|a: Json, b: Json, key: Seq<char>, x: Option<S::Date>, y: Option<S::Date>|
        member(a@, key) == member(b@, key) && #[trigger] reads_date(support, a, key, x)
            && #[trigger] reads_date(support, b, key, y) ==> x == y
}

/// Each window depends on its own members only: changing or removing any other
/// member of the usage object leaves its percentage and its reset time as they
/// were.
pub proof fn windows_depend_on_their_own_members<S: ConsoleSupport>(
    support: S,
    a: Json,
    b: Json,
    x: UsageReading<S::Number, S::Date>,
    y: UsageReading<S::Number, S::Date>,
)
    requires
        reads_by_key(support),
        is_object_reading(support, a, Ok(x)),
        is_object_reading(support, b, Ok(y)),
    ensures
        member(a@, "per5HourPercentage"@) == member(b@, "per5HourPercentage"@)
            ==> x.windows.five_hour == y.windows.five_hour,
        member(a@, "per5HourResetTime"@) == member(b@, "per5HourResetTime"@)
            ==> x.five_hour_resets_at == y.five_hour_resets_at,
        member(a@, "per1WeekPercentage"@) == member(b@, "per1WeekPercentage"@) ==> x.windows.weekly
            == y.windows.weekly,
        member(a@, "per1WeekResetTime"@) == member(b@, "per1WeekResetTime"@) ==> x.weekly_resets_at
            == y.weekly_resets_at,
        member(a@, "per1MonthPercentage"@) == member(b@, "per1MonthPercentage"@)
            ==> x.windows.monthly == y.windows.monthly,
        member(a@, "per1MonthResetTime"@) == member(b@, "per1MonthResetTime"@)
            ==> x.monthly_resets_at == y.monthly_resets_at,
{
}

/// Fields are read by the conventions from the object itself, under the very
/// key; a percentage is what the conventions make of the quantity there.
pub proof fn fields_are_read_by_the_conventions<S: ConsoleSupport>(
    support: S,
    object: Json,
    key: Seq<char>,
    number: Option<S::Number>,
    percent: Option<S::Number>,
    date: Option<S::Date>,
)
    ensures
        reads_number(support, object, key, number) <==> exists|k: &str|
            k@ == key && #[trigger] call_ensures(S::number_field, (&support, &object, k), number),
        reads_date(support, object, key, date) <==> exists|k: &str|
            k@ == key && #[trigger] call_ensures(S::date_field, (&support, &object, k), date),
        reads_percentage(support, object, key, percent) <==> exists|
            fraction: Option<S::Number>,
            k: &str,
        |
            k@ == key && #[trigger] call_ensures(S::number_field, (&support, &object, k), fraction)
                && #[trigger] call_ensures(S::percentage_points, (&support, fraction), percent),
{
    if reads_percentage(support, object, key, percent) {
        let fraction = choose|fraction: Option<S::Number>|
            reads_number(support, object, key, fraction) && #[trigger] call_ensures(
                S::percentage_points,
                (&support, fraction),
                percent,
            );
        let k = choose|k: &str|
            k@ == key && #[trigger] call_ensures(S::number_field, (&support, &object, k), fraction);
        assert(call_ensures(S::number_field, (&support, &object, k), fraction));
    }
}

/// An answer about usage that is empty, or no document, fails in its own way: a
/// login page asks for a new session, anything else cannot be parsed.
pub proof fn unreadable_answers_fail<S: ConsoleSupport>(
    support: S,
    usage: Seq<u8>,
    subscription: Option<Seq<u8>>,
    quota_config: Option<Seq<u8>>,
    r: Result<TokenPlanSnapshot<S::Number, S::Date>, ProviderError>,
)
    requires
        is_parsed_usage(support, usage, subscription, quota_config, r),
    ensures
        usage.len() == 0 ==> (r matches Err(error) && error@ == ErrorView::Parse(
            "Empty Alibaba Token Plan Personal response"@,
        )),
        usage.len() > 0 && parsed_json(usage) is None ==> (r matches Err(error) && exists|
            login: bool,
        |
            #[trigger] looks_like_login(support, usage, login) && error@ == (if login {
                ErrorView::AuthRequired
            } else {
                ErrorView::Parse("Invalid Alibaba Token Plan Personal JSON response"@)
            })),
{
}

/// Whether an answer is a login page is asked of its bytes.
pub proof fn login_pages_are_told_by_the_conventions<S: ConsoleSupport>(
    support: S,
    data: Seq<u8>,
    login: bool,
)
    requires
        looks_like_login(support, data, login),
    ensures
        exists|d: &[u8]|
            d@ == data && #[trigger] call_ensures(S::is_likely_login_html, (&support, d), login),
{
}

/// An answer about usage without a failure succeeds exactly if it has a usage
/// object that gives at least one percentage; else its windows are missing.
pub proof fn usage_needs_a_window<S: ConsoleSupport>(
    support: S,
    usage: Seq<u8>,
    subscription: Option<Seq<u8>>,
    quota_config: Option<Seq<u8>>,
    document: Json,
    expanded: Json,
    object: Option<Json>,
    percents: (Option<S::Number>, Option<S::Number>, Option<S::Number>),
    r: Result<TokenPlanSnapshot<S::Number, S::Date>, ProviderError>,
)
    requires
        reads_alike(support),
        usage.len() > 0,
        parsed_json(usage) == Some(document@),
        expands(support, document, expanded),
        reports_failure(support, expanded, Ok(())),
        finds_object(support, expanded, usage_keys(), object),
        object matches Some(o) ==> reads_percentage(support, o, "per5HourPercentage"@, percents.0)
            && reads_percentage(support, o, "per1WeekPercentage"@, percents.1) && reads_percentage(
            support,
            o,
            "per1MonthPercentage"@,
            percents.2,
        ),
        is_parsed_usage(support, usage, subscription, quota_config, r),
    ensures
        object is Some && (percents.0 is Some || percents.1 is Some || percents.2 is Some) ==> (
        r matches Ok(snapshot) && snapshot.five_hour_used_percent == percents.0
            && snapshot.weekly_used_percent == percents.1 && snapshot.monthly_used_percent
            == percents.2),
        object is None || (percents.0 is None && percents.1 is None && percents.2 is None) ==> (
        r matches Err(error) && error@ == ErrorView::Parse(
            "Missing Alibaba Token Plan Personal usage windows"@,
        )),
{
    assert(window_keys() =~= usage_keys());
    let reading = choose|reading: Result<UsageReading<S::Number, S::Date>, ProviderError>|
        #[trigger] is_usage_reading(support, usage, reading) && is_completion(
            support,
            reading,
            subscription,
            quota_config,
            r,
        );
    let other = choose|other: Json|
        other@ == document@ && #[trigger] is_document_reading(support, other, reading);
    let (opened, verdict) = choose|opened: Json, verdict: Result<(), ProviderError>|
        #[trigger] expands(support, other, opened) && #[trigger] reports_failure(
            support,
            opened,
            verdict,
        ) && match verdict {
            Err(error) => reading == Err::<UsageReading<S::Number, S::Date>, ProviderError>(error),
            Ok(_) => exists|windows: Option<Json>|
                #[trigger] finds_object(support, opened, window_keys(), windows) && match windows {
                    Some(u) => is_object_reading(support, u, reading),
                    None => fails_with(reading, missing_windows()),
                },
        };
    assert(opened@ == expanded@);
    assert(verdict is Ok);
    let found = choose|windows: Option<Json>|
        #[trigger] finds_object(support, opened, window_keys(), windows) && match windows {
            Some(u) => is_object_reading(support, u, reading),
            None => fails_with(reading, missing_windows()),
        };
    assert(same_object(found, object));
    if found is Some {
        let windows = choose|windows: UsageWindows<S::Number>|
            #[trigger] reads_windows(support, found->0, windows) && if no_window(windows) {
                fails_with(reading, missing_windows())
            } else {
                reading matches Ok(u) && u.windows == windows
            };
        assert(windows.five_hour == percents.0);
        assert(windows.weekly == percents.1);
        assert(windows.monthly == percents.2);
    }
}

/// The text under a key that is not blank, trimmed.
pub open spec fn told(object: JsonView, key: Seq<char>) -> Option<Seq<char>> {
    match member(object, key) {
        Some(JsonView::Text(text)) if trimmed(text).len() > 0 => Some(trimmed(text)),
        _ => None,
    }
}

/// Whether the code is the name, in lower case.
pub open spec fn goes_by(name: Seq<char>, code: Option<Seq<char>>) -> bool {
    &&& is_ascii_text(name) ==> code == Some(lowered(name))
    &&& lowercase(name).len() > 0 ==> code == Some(lowercase(name))
}

/// Whether the code is that of the plan that an object names: by its `specCode`,
/// or else its `spec_code`, or else its `planName`, or else its `plan_name`,
/// whichever is the first that tells something.
pub open spec fn names_plan(object: JsonView, code: Option<Seq<char>>) -> bool {
    match told(object, "specCode"@) {
        Some(name) => goes_by(name, code),
        None => match told(object, "spec_code"@) {
            Some(name) => goes_by(name, code),
            None => match told(object, "planName"@) {
                Some(name) => goes_by(name, code),
                None => match told(object, "plan_name"@) {
                    Some(name) => goes_by(name, code),
                    None => code is None,
                },
            },
        },
    }
}

/// The keys under which an answer about the subscription names the plan.
pub open spec fn subscription_keys() -> Seq<Seq<char>> {
    seq!["specCode"@, "spec_code"@, "planName"@, "plan_name"@]
}

/// A plan goes by its `specCode`, if that is a text that is not blank, whatever
/// its other members are; by its `spec_code` only without one; by its `planName`
/// only without either; and by its `plan_name` only without all three.
pub proof fn plans_go_by_their_code_first(object: JsonView, code: Option<Seq<char>>)
    requires
        code == named_plan(object, plan_keys()),
        names_plainly(object, code),
    ensures
        names_plan(object, code),
{
    let keys = plan_keys();
    reveal_with_fuel(named_plan, 5);
    reveal_with_fuel(naming_text, 5);
    assert(keys.skip(1)[0] == keys[1]);
    assert(keys.skip(1).skip(1)[0] == keys[2]);
    assert(keys.skip(1).skip(1).skip(1)[0] == keys[3]);
    assert(keys.skip(1).skip(1).skip(1).skip(1).len() == 0);
}

/// The plan that an answer about the subscription names is that of the object
/// with a plan's key in it, the answer opened up; without such an object, or
/// without a document, there is none.
pub proof fn subscriptions_name_the_plan<S: ConsoleSupport>(
    support: S,
    data: Seq<u8>,
    code: Option<Seq<char>>,
)
    requires
        is_subscribed_plan(support, Some(data), code),
    ensures
        parsed_json(data) is None ==> code is None,
        parsed_json(data) is Some ==> exists|document: Json, expanded: Json, plan: Option<Json>|
            parsed_json(data) == Some(document@) && #[trigger] expands(
                support,
                document,
                expanded,
            ) && #[trigger] finds_object(
                support,
                expanded,
                subscription_keys(),
                plan,
            ) && match plan {
                Some(object) => names_plan(object@, code),
                None => code is None,
            },
{
    if parsed_json(data) is Some {
        let document = choose|document: Json|
            document@ == parsed_json(data)->0 && #[trigger] is_plan_code(support, document, code);
        let (expanded, plan) = choose|expanded: Json, plan: Option<Json>|
            #[trigger] expands(support, document, expanded) && #[trigger] finds_object(
                support,
                expanded,
                plan_keys(),
                plan,
            ) && match plan {
                Some(object) => code == named_plan(object@, plan_keys()) && names_plainly(
                    object@,
                    code,
                ),
                None => code is None,
            };
        assert(plan_keys() =~= subscription_keys());
        assert(finds_object(support, expanded, subscription_keys(), plan));
        if plan is Some {
            plans_go_by_their_code_first(plan->0@, code);
        }
    }
}

/// Without an answer about the subscription there is no plan.
pub proof fn without_a_subscription_there_is_no_plan<S: ConsoleSupport>(
    support: S,
    code: Option<Seq<char>>,
)
    requires
        is_subscribed_plan(support, None, code),
    ensures
        code is None,
{
}

/// A known plan is shown by its name, any other by its code as it is. Either way
/// the two differ in case at most.
pub proof fn plans_are_shown_by_name(code: Seq<char>)
    ensures
        lowered(shown_name(code)) == lowered(code),
        code == "lite"@ ==> shown_name(code) == "Lite"@,
        code == "standard"@ ==> shown_name(code) == "Standard"@,
        code == "pro"@ ==> shown_name(code) == "Pro"@,
        code == "max"@ ==> shown_name(code) == "Max"@,
        code != "lite"@ && code != "standard"@ && code != "pro"@ && code != "max"@ ==> shown_name(
            code,
        ) == code,
{
    reveal_strlit("lite");
    reveal_strlit("Lite");
    reveal_strlit("standard");
    reveal_strlit("Standard");
    reveal_strlit("pro");
    reveal_strlit("Pro");
    reveal_strlit("max");
    reveal_strlit("Max");
    assert(lowered("Lite"@) =~= lowered("lite"@));
    assert(lowered("Standard"@) =~= lowered("standard"@));
    assert(lowered("Pro"@) =~= lowered("pro"@));
    assert(lowered("Max"@) =~= lowered("max"@));
    assert("lite"@.len() == 4 && "standard"@.len() == 8 && "pro"@.len() == 3 && "max"@.len() == 3);
    assert("pro"@[0] == 'p' && "max"@[0] == 'm');
}

/// A snapshot shows the plan's name, or `Personal` without a plan, and the plan's
/// quotas, each for its own window; without a plan or an answer about quotas it
/// shows none.
pub proof fn snapshots_show_the_plan<S: ConsoleSupport>(
    support: S,
    usage: Seq<u8>,
    subscription: Option<Seq<u8>>,
    quota_config: Option<Seq<u8>>,
    snapshot: TokenPlanSnapshot<S::Number, S::Date>,
)
    requires
        is_parsed_usage(support, usage, subscription, quota_config, Ok(snapshot)),
    ensures
        exists|code: Option<Seq<char>>, totals: Option<QuotaTotals<S::Number>>|
            {
                &&& #[trigger] is_subscribed_plan(support, subscription, code)
                &&& #[trigger] are_plan_totals(support, quota_config, code, totals)
                &&& text_view(snapshot.plan_name) == (match code {
                    Some(c) => Some(shown_name(c)),
                    None => Some("Personal"@),
                })
                &&& code is None || quota_config is None ==> totals is None
                &&& code is Some && quota_config is Some ==> are_quota_totals_of(
                    support,
                    quota_config->0,
                    code->0,
                    totals,
                )
                &&& match totals {
                    Some(t) => snapshot.five_hour_total_quota == t.0 && snapshot.weekly_total_quota
                        == t.1,
                    None => snapshot.five_hour_total_quota is None
                        && snapshot.weekly_total_quota is None,
                }
            },
        subscription is None ==> text_view(snapshot.plan_name) == Some("Personal"@),
{
}

/// The quotas of a plan are read from the object that stands under the plan's
/// code in the answer, opened up: the weekly one under `weekly`, the five-hour
/// one under `five_hour`, or else under `fiveHour`. There are quotas exactly if
/// one of the two is given.
pub proof fn quotas_are_read_under_the_plan<S: ConsoleSupport>(
    support: S,
    data: Seq<u8>,
    plan_code: Seq<char>,
    totals: Option<QuotaTotals<S::Number>>,
)
    requires
        are_quota_totals_of(support, data, plan_code, totals),
    ensures
        parsed_json(data) is None ==> totals is None,
        parsed_json(data) is Some ==> exists|document: Json, expanded: Json|
            parsed_json(data) == Some(document@) && #[trigger] expands(support, document, expanded)
                && gives_totals(support, expanded@, plan_code, totals),
{
    if parsed_json(data) is Some {
        let document = choose|document: Json|
            document@ == parsed_json(data)->0 && #[trigger] are_quota_totals(
                support,
                document,
                plan_code,
                totals,
            );
        let expanded = choose|expanded: Json|
            #[trigger] expands(support, document, expanded) && match first_value(
                expanded@,
                plan_code,
            ) {
                Some(JsonView::Object(entries)) => exists|object: Json|
                    object@ == JsonView::Object(entries) && #[trigger] are_object_totals(
                        support,
                        object,
                        totals,
                    ),
                _ => totals is None,
            };
        assert(gives_totals(support, expanded@, plan_code, totals)) by {
            if first_value(expanded@, plan_code) is Some && first_value(expanded@, plan_code)->0
                is Object {
                let object = choose|object: Json|
                    object@ == first_value(expanded@, plan_code)->0
                        && #[trigger] are_object_totals(support, object, totals);
                let (five_hour, weekly) = choose|
                    five_hour: Option<S::Number>,
                    weekly: Option<S::Number>,
                |
                    #[trigger] reads_five_hour_total(support, object, five_hour)
                        && #[trigger] reads_number(support, object, "weekly"@, weekly) && totals
                        == (if five_hour is None && weekly is None {
                        None
                    } else {
                        Some((five_hour, weekly))
                    });
                let snake = choose|snake: Option<S::Number>|
                    #[trigger] reads_number(support, object, "five_hour"@, snake) && (
                    if snake is Some {
                        five_hour == snake
                    } else {
                        reads_number(support, object, "fiveHour"@, five_hour)
                    });
                assert(reads_number(support, object, "five_hour"@, snake));
            }
        }
    }
}

/// Whether the totals are those that an opened answer gives for a plan.
pub open spec fn gives_totals<S: ConsoleSupport>(
    support: S,
    answer: JsonView,
    plan_code: Seq<char>,
    totals: Option<QuotaTotals<S::Number>>,
) -> bool {
    match first_value(answer, plan_code) {
        Some(JsonView::Object(entries)) => exists|
            object: Json,
            snake: Option<S::Number>,
            weekly: Option<S::Number>,
        |
            {
                &&& object@ == JsonView::Object(entries)
                &&& #[trigger] reads_number(support, object, "five_hour"@, snake)
                &&& #[trigger] reads_number(support, object, "weekly"@, weekly)
                &&& totals is None ==> snake is None && weekly is None && reads_number(
                    support,
                    object,
                    "fiveHour"@,
                    None,
                )
                &&& totals matches Some(t) ==> {
                    &&& t.1 == weekly
                    &&& snake is Some ==> t.0 == snake
                    &&& snake is None ==> reads_number(support, object, "fiveHour"@, t.0)
                    &&& t.0 is Some || t.1 is Some
                }
            },
        _ => totals is None,
    }
}

/// The envelope of an answer says success by its code, which is `SUCCESS` in any
/// case or `200`, by its truth value, and by the lack of an error code that is
/// not blank.
pub proof fn envelopes_say_success(document: JsonView)
    ensures
        says_success(document) <==> {
            &&& member(document, "code"@) matches Some(JsonView::Text(code)) && (lowered(
                trimmed(code),
            ) == "success"@ || trimmed(code) == "200"@)
            &&& member(document, "successResponse"@) == Some(JsonView::Bool(true))
            &&& !(member(document, "errorCode"@) matches Some(JsonView::Text(code)) && trimmed(
                code,
            ).len() > 0)
        },
{
    reveal_strlit("SUCCESS");
    reveal_strlit("success");
    assert(lowered("SUCCESS"@) =~= "success"@);
}

/// An answer is a success without windows exactly if it is a document that,
/// opened up, has no object with a window and says success.
pub proof fn windowless_successes_have_no_window<S: ConsoleSupport>(
    support: S,
    data: Seq<u8>,
    r: bool,
)
    requires
        is_windowless_success_of(support, data, r),
    ensures
        parsed_json(data) is None ==> !r,
        parsed_json(data) is Some ==> exists|document: Json, expanded: Json, object: Option<Json>|
            parsed_json(data) == Some(document@) && #[trigger] expands(
                support,
                document,
                expanded,
            ) && #[trigger] finds_object(support, expanded, usage_keys(), object) && (r <==> object
                is None && says_success(expanded@)),
{
    if parsed_json(data) is Some {
        let document = choose|document: Json|
            document@ == parsed_json(data)->0 && #[trigger] is_windowless_success(
                support,
                document,
                r,
            );
        let (expanded, object) = choose|expanded: Json, object: Option<Json>|
            #[trigger] expands(support, document, expanded) && #[trigger] finds_object(
                support,
                expanded,
                window_keys(),
                object,
            ) && r == (object is None && says_success(expanded@));
        assert(window_keys() =~= usage_keys());
        assert(finds_object(support, expanded, usage_keys(), object));
    }
}

/// Objects are looked for, documents opened up and failures told by the
/// conventions, with the very document and keys.
pub proof fn documents_are_read_by_the_conventions<S: ConsoleSupport>(
    support: S,
    document: Json,
    keys: Seq<Seq<char>>,
    expanded: Json,
    object: Option<Json>,
    verdict: Result<(), ProviderError>,
)
    ensures
        expands(support, document, expanded) <==> call_ensures(
            S::expand_json_strings,
            (&support, document),
            expanded,
        ),
        finds_object(support, document, keys, object) <==> exists|k: &[&str]|
            str_views(k@) == keys && #[trigger] call_ensures(
                S::find_object_containing_any_of,
                (&support, &document, k),
                object,
            ),
        reports_failure(support, document, verdict) <==> call_ensures(
            S::throw_if_error_payload,
            (&support, &document),
            verdict,
        ),
{
}

/// A member is looked up by its key: what is found stands under that key, and
/// first; where nothing is found, nothing stands there.
pub proof fn members_are_looked_up_by_key(entries: EntriesView, key: Seq<char>)
    ensures
        match lookup(entries, key) {
            Some(value) => exists|i: int|
                0 <= i < entries.len() && #[trigger] entries[i] == (key, value) && forall|j: int|
                    0 <= j < i ==> (#[trigger] entries[j]).0 != key,
            None => forall|j: int| 0 <= j < entries.len() ==> (#[trigger] entries[j]).0 != key,
        },
        member(JsonView::Object(entries), key) == lookup(entries, key),
    decreases entries.len(),
{
    if entries.len() > 0 && entries[0].0 != key {
        let rest = entries.skip(1);
        members_are_looked_up_by_key(rest, key);
        match lookup(entries, key) {
            Some(value) => {
                let i = choose|i: int|
                    0 <= i < rest.len() && #[trigger] rest[i] == (key, value) && forall|j: int|
                        0 <= j < i ==> (#[trigger] rest[j]).0 != key;
                assert(entries[i + 1] == (key, value));
                assert forall|j: int| 0 <= j < i + 1 implies (#[trigger] entries[j]).0 != key by {
                    if j > 0 {
                        assert(entries[j] == rest[j - 1]);
                    }
                }
            },
            None => {
                assert forall|j: int| 0 <= j < entries.len() implies (#[trigger] entries[j]).0
                    != key by {
                    if j > 0 {
                        assert(entries[j] == rest[j - 1]);
                    }
                }
            },
        }
    } else if entries.len() > 0 {
        assert(entries[0] == (key, entries[0].1));
    }
}

/// The search for a key takes an object's own member, or else what the first of
/// its members that has one has inside; of an array, what the first such item
/// has inside; and of anything else, nothing.
pub proof fn the_first_value_is_found(document: JsonView, key: Seq<char>, n: int)
    ensures
        match document {
            JsonView::Object(entries) => {
                &&& lookup(entries, key) is Some ==> first_value(document, key) == lookup(
                    entries,
                    key,
                )
                &&& lookup(entries, key) is None && 0 <= n < entries.len() && first_value(
                    entries[n].1,
                    key,
                ) is Some && (forall|j: int|
                    0 <= j < n ==> first_value((#[trigger] entries[j]).1, key) is None)
                    ==> first_value(document, key) == first_value(entries[n].1, key)
                &&& lookup(entries, key) is None && (forall|j: int|
                    0 <= j < entries.len() ==> first_value((#[trigger] entries[j]).1, key) is None)
                    ==> first_value(document, key) is None
            },
            JsonView::Array(items) => {
                &&& 0 <= n < items.len() && first_value(items[n], key) is Some && (forall|j: int|
                    0 <= j < n ==> first_value(#[trigger] items[j], key) is None) ==> first_value(
                    document,
                    key,
                ) == first_value(items[n], key)
                &&& (forall|j: int|
                    0 <= j < items.len() ==> first_value(#[trigger] items[j], key) is None)
                    ==> first_value(document, key) is None
            },
            _ => first_value(document, key) is None,
        },
{
    match document {
        JsonView::Object(entries) => {
            if lookup(entries, key) is None && 0 <= n < entries.len() && first_value(
                entries[n].1,
                key,
            ) is Some && (forall|j: int|
                0 <= j < n ==> first_value((#[trigger] entries[j]).1, key) is None) {
                assert forall|j: int| 0 <= j < n implies first_value(
                    #[trigger] child(document, j),
                    key,
                ) is None by {
                    assert(child(document, j) == entries[j].1);
                }
                earlier_document_comes_first(document, n as nat, key);
            }
            if lookup(entries, key) is None && (forall|j: int|
                0 <= j < entries.len() ==> first_value((#[trigger] entries[j]).1, key) is None) {
                assert forall|j: int| 0 <= j < child_count(document) implies first_value(
                    #[trigger] child(document, j),
                    key,
                ) is None by {
                    assert(child(document, j) == entries[j].1);
                }
                lemma_nothing_found(document, key, 0);
            }
        },
        JsonView::Array(items) => {
            if 0 <= n < items.len() && first_value(items[n], key) is Some && (forall|j: int|
                0 <= j < n ==> first_value(#[trigger] items[j], key) is None) {
                assert forall|j: int| 0 <= j < n implies first_value(
                    #[trigger] child(document, j),
                    key,
                ) is None by {
                    assert(child(document, j) == items[j]);
                }
                earlier_document_comes_first(document, n as nat, key);
            }
            if forall|j: int|
                0 <= j < items.len() ==> first_value(#[trigger] items[j], key) is None {
                assert forall|j: int| 0 <= j < child_count(document) implies first_value(
                    #[trigger] child(document, j),
                    key,
                ) is None by {
                    assert(child(document, j) == items[j]);
                }
                lemma_nothing_found(document, key, 0);
            }
        },
        _ => {
            lemma_nothing_found(document, key, 0);
        },
    }
}

proof fn lemma_nothing_found(document: JsonView, key: Seq<char>, i: nat)
    requires
        forall|j: int|
            0 <= j < child_count(document) ==> first_value(#[trigger] child(document, j), key)
                is None,
    ensures
        first_value_from(document, i, key) is None,
    decreases child_count(document) - i,
{
    if i < child_count(document) {
        assert(first_value(child(document, i as int), key) is None);
        lemma_nothing_found(document, key, i + 1);
    }
}

} // verus!
