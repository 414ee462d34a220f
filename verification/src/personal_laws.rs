//! What holds of the personal plan's requests, answers and fetches.

use crate::console::{
    expands, finds_object, looks_like_login, reads_date, reads_number, reads_percentage,
    reports_failure, AlibabaTokenPlanRegion, ConsoleProfile, ConsoleSupport,
};
use crate::error::ProviderError;
use crate::json::{lookup, member, parsed_json, with_entry, EntriesView, Json, JsonView};
use crate::json_laws::filled_value_is_found;
use crate::personal_fetch::{
    is_step, posts, FetchAction, FetchEvent, FetchPhase, FetchState, MAX_USAGE_ATTEMPTS,
};
use crate::personal_request::{
    cornerstone_members, form_view, is_request, object_of, params_view, PersonalApiContext,
    PersonalRequest,
};
use crate::personal_usage::{
    is_completion, is_document_reading, is_parsed_usage, is_subscribed_plan, is_usage_reading,
    is_windowless_success_of, plan_title, TokenPlanSnapshot, UsageReading,
};
use crate::text::{decimal, text_view, trimmed};
use vstd::prelude::*;

verus! {

/// A key that is none of the members' is none of the object's.
pub(crate) proof fn lemma_absent(members: EntriesView, key: Seq<char>)
    requires
        forall|i: int| 0 <= i < members.len() ==> (#[trigger] members[i]).0 != key,
    ensures
        lookup(object_of(members), key) is None,
    decreases members.len(),
{
    if members.len() > 0 {
        let rest = members.drop_last();
        assert forall|i: int| 0 <= i < rest.len() implies (#[trigger] rest[i]).0 != key by {
            assert(rest[i] == members[i]);
        }
        lemma_absent(rest, key);
        filled_value_is_found(object_of(rest), members.last().0, members.last().1, key);
    }
}

/// A member is found under its key, if no later one has the same key.
pub(crate) proof fn lemma_present(members: EntriesView, n: int)
    requires
        0 <= n < members.len(),
        forall|i: int| n < i < members.len() ==> (#[trigger] members[i]).0 != members[n].0,
    ensures
        lookup(object_of(members), members[n].0) == Some(members[n].1),
    decreases members.len(),
{
    let rest = members.drop_last();
    filled_value_is_found(
        object_of(rest),
        members.last().0,
        members.last().1,
        members[n].0,
    );
    if n < members.len() - 1 {
        assert(rest[n] == members[n]);
        assert forall|i: int| n < i < rest.len() implies (#[trigger] rest[i]).0 != rest[n].0 by {
            assert(rest[i] == members[i]);
        }
        lemma_present(rest, n);
        assert(members[members.len() - 1].0 != members[n].0);
    }
}

/// The member that tells who asks, of the data of a request's parameters.
pub open spec fn cornerstone_of(params: JsonView) -> Option<JsonView> {
    match member(params, "Data"@) {
        Some(data) => member(data, "cornerstoneParam"@),
        None => None,
    }
}

/// A request never names a workspace agent, whatever is asked: the gateway
/// finds the workspace of the session itself, as a personal user's.
pub proof fn requests_name_no_workspace_agent(
    trace_id: Seq<char>,
    api: Seq<char>,
    data: EntriesView,
    cna: Option<Seq<char>>,
    region: AlibabaTokenPlanRegion,
    console: ConsoleProfile,
)
    ensures
        ({
            let params = params_view(trace_id, api, data, cna, region, console);
            &&& cornerstone_of(params) is Some
            &&& member(cornerstone_of(params)->0, "switchAgent"@) is None
            &&& member(cornerstone_of(params)->0, "switchUserType"@) == Some(
                JsonView::Number(decimal(3)),
            )
        }),
{
    lemma_params_data(trace_id, api, data, cna, region, console);
    let members = cornerstone_members(trace_id, cna, region, console);
    reveal_strlit("switchAgent");
    reveal_strlit("feTraceId");
    reveal_strlit("feURL");
    reveal_strlit("protocol");
    reveal_strlit("console");
    reveal_strlit("productCode");
    reveal_strlit("switchUserType");
    reveal_strlit("domain");
    reveal_strlit("consoleSite");
    reveal_strlit("userNickName");
    reveal_strlit("userPrincipalName");
    reveal_strlit("xsp_lang");
    reveal_strlit("X-Anonymous-Id");
    assert("switchAgent"@.len() == 11 && "switchAgent"@[0] == 's');
    assert forall|i: int| 0 <= i < members.len() implies (#[trigger] members[i]).0
        != "switchAgent"@ by {
        let k = members[i].0;
        assert(k.len() != 11 || k[0] != 's');
    }
    lemma_absent(members, "switchAgent"@);
    assert forall|i: int| 5 < i < members.len() implies (#[trigger] members[i]).0
        != members[5].0 by {
        let k = members[i].0;
        assert(k.len() != 14 || k[0] != 's');
    }
    lemma_present(members, 5);
}

/// The data of a request's parameters: what was asked with, and who asks.
pub(crate) proof fn lemma_params_data(
    trace_id: Seq<char>,
    api: Seq<char>,
    data: EntriesView,
    cna: Option<Seq<char>>,
    region: AlibabaTokenPlanRegion,
    console: ConsoleProfile,
)
    ensures
        ({
            let params = params_view(trace_id, api, data, cna, region, console);
            let cornerstone = JsonView::Object(
                object_of(cornerstone_members(trace_id, cna, region, console)),
            );
            &&& member(params, "Api"@) == Some(JsonView::Text(api))
            &&& member(params, "V"@) == Some(JsonView::Text("1.0"@))
            &&& member(params, "Data"@) == Some(
                JsonView::Object(with_entry(data, "cornerstoneParam"@, cornerstone)),
            )
            &&& cornerstone_of(params) == Some(cornerstone)
        }),
{
    let cornerstone = JsonView::Object(
        object_of(cornerstone_members(trace_id, cna, region, console)),
    );
    let filled = JsonView::Object(with_entry(data, "cornerstoneParam"@, cornerstone));
    let members = seq![
        ("Api"@, JsonView::Text(api)),
        ("V"@, JsonView::Text("1.0"@)),
        ("Data"@, filled),
    ];
    reveal_strlit("Api");
    reveal_strlit("V");
    reveal_strlit("Data");
    assert("Api"@.len() == 3 && "V"@.len() == 1 && "Data"@.len() == 4);
    lemma_present(members, 0);
    lemma_present(members, 1);
    lemma_present(members, 2);
    filled_value_is_found(data, "cornerstoneParam"@, cornerstone, "cornerstoneParam"@);
}

/// A request's parameters keep the API and every other member of the data that
/// is asked with.
pub proof fn requests_keep_their_data(
    trace_id: Seq<char>,
    api: Seq<char>,
    data: EntriesView,
    cna: Option<Seq<char>>,
    region: AlibabaTokenPlanRegion,
    console: ConsoleProfile,
    key: Seq<char>,
)
    requires
        key != "cornerstoneParam"@,
    ensures
        ({
            let params = params_view(trace_id, api, data, cna, region, console);
            &&& member(params, "Api"@) == Some(JsonView::Text(api))
            &&& member(params, "Data"@) is Some
            &&& member(member(params, "Data"@)->0, key) == lookup(data, key)
        }),
{
    lemma_params_data(trace_id, api, data, cna, region, console);
    let cornerstone = JsonView::Object(
        object_of(cornerstone_members(trace_id, cna, region, console)),
    );
    filled_value_is_found(data, "cornerstoneParam"@, cornerstone, key);
}

/// A form forwards the security token exactly if there is one that is not
/// blank, and forwards it as it is.
pub proof fn forms_forward_the_token(
    params: Seq<char>,
    region: AlibabaTokenPlanRegion,
    console: ConsoleProfile,
    sec_token: Option<Seq<char>>,
    value: Seq<char>,
)
    ensures
        form_view(params, region, console, sec_token).contains(("sec_token"@, value)) <==> (
        sec_token == Some(value) && trimmed(value).len() > 0),
{
    let fields = form_view(params, region, console, sec_token);
    reveal_strlit("sec_token");
    reveal_strlit("product");
    reveal_strlit("action");
    reveal_strlit("region");
    reveal_strlit("language");
    reveal_strlit("params");
    assert("sec_token"@.len() == 9);
    assert(fields[0].0.len() == 7 && fields[1].0.len() == 6 && fields[2].0.len() == 6
        && fields[3].0.len() == 8 && fields[4].0.len() == 6);
    if sec_token == Some(value) && trimmed(value).len() > 0 {
        assert(fields[5] == ("sec_token"@, value));
    }
    if fields.contains(("sec_token"@, value)) {
        let i = choose|i: int| 0 <= i < fields.len() && fields[i] == ("sec_token"@, value);
        assert(i == 5);
    }
}

/// Every request is given a second at least.
pub proof fn requests_are_given_time<S: ConsoleSupport>(
    support: S,
    context: PersonalApiContext<'_>,
    api: Seq<char>,
    data: EntriesView,
    request: PersonalRequest,
)
    requires
        is_request(support, context, api, data, request),
    ensures
        request.timeout_secs >= 1,
        request.timeout_secs >= context.fetch_context.web_timeout,
{
}

/// Whether a snapshot has a quota for one of its windows.
pub open spec fn has_quotas<N, D>(snapshot: TokenPlanSnapshot<N, D>) -> bool {
    snapshot.five_hour_total_quota is Some || snapshot.weekly_total_quota is Some
}

/// A snapshot that reports a window and names a plan, without overall quotas or
/// an overall reset time.
pub open spec fn reports_usage<N, D>(snapshot: TokenPlanSnapshot<N, D>) -> bool {
    &&& snapshot.five_hour_used_percent is Some || snapshot.weekly_used_percent is Some
        || snapshot.monthly_used_percent is Some
    &&& snapshot.used_quota is None
    &&& snapshot.total_quota is None
    &&& snapshot.remaining_quota is None
    &&& snapshot.resets_at is None
    &&& snapshot.plan_name is Some
}

/// A snapshot that shows the plan of this code, `Personal` where there is none,
/// and has quotas only where there is a code and the quotas were answered.
pub open spec fn fits_plan<N, D>(
    snapshot: TokenPlanSnapshot<N, D>,
    code: Option<Seq<char>>,
    quota_config: Option<Seq<u8>>,
) -> bool {
    &&& text_view(snapshot.plan_name) == Some(plan_title(code))
    &&& has_quotas(snapshot) ==> code is Some && quota_config is Some
}

/// A snapshot always reports a window and always names the plan, `Personal`
/// where none is known. It has quotas only where the subscription names a plan
/// and the quotas were answered, and no overall quota or reset time.
pub proof fn snapshots_report_a_window<S: ConsoleSupport>(
    support: S,
    usage: Seq<u8>,
    subscription: Option<Seq<u8>>,
    quota_config: Option<Seq<u8>>,
    snapshot: TokenPlanSnapshot<S::Number, S::Date>,
)
    requires
        is_parsed_usage(support, usage, subscription, quota_config, Ok(snapshot)),
    ensures
        reports_usage(snapshot),
        exists|code: Option<Seq<char>>|
            #[trigger] is_subscribed_plan(support, subscription, code) && fits_plan(
                snapshot,
                code,
                quota_config,
            ),
        subscription is None ==> text_view(snapshot.plan_name) == Some("Personal"@),
{
}

/// The same verdict on failures, by its model.
pub open spec fn same_verdict(x: Result<(), ProviderError>, y: Result<(), ProviderError>) -> bool {
    match (x, y) {
        (Ok(_), Ok(_)) => true,
        (Err(e), Err(f)) => e@ == f@,
        _ => false,
    }
}

/// The same object found, by its model, or none both times.
pub open spec fn same_object(x: Option<Json>, y: Option<Json>) -> bool {
    match (x, y) {
        (Some(a), Some(b)) => a@ == b@,
        (None, None) => true,
        _ => false,
    }
}

/// Conventions that read the same of equal documents and answers.
pub open spec fn reads_alike<S: ConsoleSupport>(support: S) -> bool {
    &&& forall|a: Json, b: Json, x: Json, y: Json|
        a@ == b@ && #[trigger] expands(support, a, x) && #[trigger] expands(support, b, y) ==> x@
            == y@
    &&& forall|a: Json, b: Json, keys: Seq<Seq<char>>, x: Option<Json>, y: Option<Json>|
        a@ == b@ && #[trigger] finds_object(support, a, keys, x) && #[trigger] finds_object(
            support,
            b,
            keys,
            y,
        ) ==> same_object(x, y)
    &&& forall|a: Json, b: Json, key: Seq<char>, x: Option<S::Number>, y: Option<S::Number>|
        a@ == b@ && #[trigger] reads_number(support, a, key, x) && #[trigger] reads_number(
            support,
            b,
            key,
            y,
        ) ==> x == y
    &&& forall|a: Json, b: Json, key: Seq<char>, x: Option<S::Number>, y: Option<S::Number>|
        a@ == b@ && #[trigger] reads_percentage(support, a, key, x)
            && #[trigger] reads_percentage(support, b, key, y) ==> x == y
    &&& forall|a: Json, b: Json, key: Seq<char>, x: Option<S::Date>, y: Option<S::Date>|
        a@ == b@ && #[trigger] reads_date(support, a, key, x) && #[trigger] reads_date(
            support,
            b,
            key,
            y,
        ) ==> x == y
    &&& forall|a: Json, b: Json, x: Result<(), ProviderError>, y: Result<(), ProviderError>|
        a@ == b@ && #[trigger] reports_failure(support, a, x) && #[trigger] reports_failure(
            support,
            b,
            y,
        ) ==> same_verdict(x, y)
    &&& forall|data: Seq<u8>, x: bool, y: bool| #[trigger]
        looks_like_login(support, data, x) && #[trigger] looks_like_login(support, data, y) ==> x
            == y
}

/// Outcomes that agree on the usage: snapshots with the same percentages and
/// reset times, or the same failure.
pub open spec fn same_usage<N, D>(
    x: Result<TokenPlanSnapshot<N, D>, ProviderError>,
    y: Result<TokenPlanSnapshot<N, D>, ProviderError>,
) -> bool {
    match (x, y) {
        (Ok(a), Ok(b)) => {
            &&& a.five_hour_used_percent == b.five_hour_used_percent
            &&& a.weekly_used_percent == b.weekly_used_percent
            &&& a.monthly_used_percent == b.monthly_used_percent
            &&& a.five_hour_resets_at == b.five_hour_resets_at
            &&& a.weekly_resets_at == b.weekly_resets_at
            &&& a.monthly_resets_at == b.monthly_resets_at
        },
        (Err(e), Err(f)) => e@ == f@,
        _ => false,
    }
}

/// What an answer about usage reports decides alone whether there is a snapshot,
/// which failure there is otherwise, and what the percentages and reset times
/// are. The answers about the subscription and the quotas, missing or malformed
/// ones included, decide the plan's name and the quotas, and nothing else.
pub proof fn one_reading_gives_one_usage<S: ConsoleSupport>(
    support: S,
    usage: Seq<u8>,
    reading: Result<UsageReading<S::Number, S::Date>, ProviderError>,
    subscriptions: (Option<Seq<u8>>, Option<Seq<u8>>),
    quota_configs: (Option<Seq<u8>>, Option<Seq<u8>>),
    x: Result<TokenPlanSnapshot<S::Number, S::Date>, ProviderError>,
    y: Result<TokenPlanSnapshot<S::Number, S::Date>, ProviderError>,
)
    requires
        is_usage_reading(support, usage, reading),
        is_completion(support, reading, subscriptions.0, quota_configs.0, x),
        is_completion(support, reading, subscriptions.1, quota_configs.1, y),
    ensures
        same_usage(x, y),
        reading is Ok <==> x is Ok,
        x matches Ok(snapshot) ==> reports_usage(snapshot) && exists|code: Option<Seq<char>>|
            #[trigger] is_subscribed_plan(support, subscriptions.0, code) && fits_plan(
                snapshot,
                code,
                quota_configs.0,
            ),
        y matches Ok(snapshot) ==> reports_usage(snapshot) && exists|code: Option<Seq<char>>|
            #[trigger] is_subscribed_plan(support, subscriptions.1, code) && fits_plan(
                snapshot,
                code,
                quota_configs.1,
            ),
{
    if x is Ok {
        snapshots_report_a_window(support, usage, subscriptions.0, quota_configs.0, x->Ok_0);
    }
    if y is Ok {
        snapshots_report_a_window(support, usage, subscriptions.1, quota_configs.1, y->Ok_0);
    }
}

/// Readings that report the same, or fail the same way.
pub open spec fn same_reading<N, D>(
    x: Result<UsageReading<N, D>, ProviderError>,
    y: Result<UsageReading<N, D>, ProviderError>,
) -> bool {
    match (x, y) {
        (Ok(a), Ok(b)) => a == b,
        (Err(e), Err(f)) => e@ == f@,
        _ => false,
    }
}

/// Conventions that read the same of equal documents read the same of one
/// answer about usage each time.
pub proof fn readings_are_alike<S: ConsoleSupport>(
    support: S,
    usage: Seq<u8>,
    x: Result<UsageReading<S::Number, S::Date>, ProviderError>,
    y: Result<UsageReading<S::Number, S::Date>, ProviderError>,
)
    requires
        reads_alike(support),
        is_usage_reading(support, usage, x),
        is_usage_reading(support, usage, y),
    ensures
        same_reading(x, y),
{
    if usage.len() > 0 && parsed_json(usage) is Some {
        let view = parsed_json(usage)->0;
        let a = choose|a: Json| a@ == view && #[trigger] is_document_reading(support, a, x);
        let b = choose|b: Json| b@ == view && #[trigger] is_document_reading(support, b, y);
        lemma_document_read_alike(support, a, b, x, y);
    }
}

proof fn lemma_document_read_alike<S: ConsoleSupport>(
    support: S,
    a: Json,
    b: Json,
    x: Result<UsageReading<S::Number, S::Date>, ProviderError>,
    y: Result<UsageReading<S::Number, S::Date>, ProviderError>,
)
    requires
        reads_alike(support),
        a@ == b@,
        is_document_reading(support, a, x),
        is_document_reading(support, b, y),
    ensures
        same_reading(x, y),
{
}

/// Two times that the same answer about usage is parsed agree, whatever the
/// answers about the subscription and the quotas are, missing or malformed ones
/// included: the percentages and reset times are the same, or the failure is.
/// Without a plan code the plan is `Personal`, and without a plan code or an
/// answer about quotas there are no quotas.
pub proof fn usage_is_read_alike<S: ConsoleSupport>(
    support: S,
    usage: Seq<u8>,
    subscriptions: (Option<Seq<u8>>, Option<Seq<u8>>),
    quota_configs: (Option<Seq<u8>>, Option<Seq<u8>>),
    x: Result<TokenPlanSnapshot<S::Number, S::Date>, ProviderError>,
    y: Result<TokenPlanSnapshot<S::Number, S::Date>, ProviderError>,
)
    requires
        reads_alike(support),
        is_parsed_usage(support, usage, subscriptions.0, quota_configs.0, x),
        is_parsed_usage(support, usage, subscriptions.1, quota_configs.1, y),
    ensures
        same_usage(x, y),
        x matches Ok(snapshot) ==> completes_usage(
            support,
            subscriptions.0,
            quota_configs.0,
            snapshot,
        ),
        y matches Ok(snapshot) ==> completes_usage(
            support,
            subscriptions.1,
            quota_configs.1,
            snapshot,
        ),
{
    let a = choose|a: Result<UsageReading<S::Number, S::Date>, ProviderError>|
        #[trigger] is_usage_reading(support, usage, a) && is_completion(
            support,
            a,
            subscriptions.0,
            quota_configs.0,
            x,
        );
    let b = choose|b: Result<UsageReading<S::Number, S::Date>, ProviderError>|
        #[trigger] is_usage_reading(support, usage, b) && is_completion(
            support,
            b,
            subscriptions.1,
            quota_configs.1,
            y,
        );
    readings_are_alike(support, usage, a, b);
    if x is Ok {
        lemma_completes_usage(support, usage, subscriptions.0, quota_configs.0, x->Ok_0);
    }
    if y is Ok {
        lemma_completes_usage(support, usage, subscriptions.1, quota_configs.1, y->Ok_0);
    }
}

/// What a snapshot holds besides the percentages and reset times of its
/// windows, whichever way the subscription is read.
pub open spec fn completes_usage<S: ConsoleSupport>(
    support: S,
    subscription: Option<Seq<u8>>,
    quota_config: Option<Seq<u8>>,
    snapshot: TokenPlanSnapshot<S::Number, S::Date>,
) -> bool {
    &&& reports_usage(snapshot)
    &&& forall|code: Option<Seq<char>>| #[trigger]
        is_subscribed_plan(support, subscription, code) ==> fits_plan(snapshot, code, quota_config)
}

/// A failure that the conventions see in an answer about usage is passed on as
/// it is, whatever the other answers are.
pub proof fn reported_failures_are_passed_on<S: ConsoleSupport>(
    support: S,
    usage: Seq<u8>,
    subscription: Option<Seq<u8>>,
    quota_config: Option<Seq<u8>>,
    document: Json,
    expanded: Json,
    error: ProviderError,
    r: Result<TokenPlanSnapshot<S::Number, S::Date>, ProviderError>,
)
    requires
        reads_alike(support),
        usage.len() > 0,
        parsed_json(usage) == Some(document@),
        expands(support, document, expanded),
        reports_failure(support, expanded, Err(error)),
        is_parsed_usage(support, usage, subscription, quota_config, r),
    ensures
        r matches Err(e) && e@ == error@,
{
    let failed = Err::<UsageReading<S::Number, S::Date>, ProviderError>(error);
    assert(is_document_reading(support, document, failed));
    assert(is_usage_reading(support, usage, failed));
    let reading = choose|reading: Result<UsageReading<S::Number, S::Date>, ProviderError>|
        #[trigger] is_usage_reading(support, usage, reading) && is_completion(
            support,
            reading,
            subscription,
            quota_config,
            r,
        );
    readings_are_alike(support, usage, reading, failed);
}

/// The plan that an answer about the subscription names is the same each time
/// it is read.
proof fn lemma_plan_read_alike<S: ConsoleSupport>(
    support: S,
    subscription: Option<Seq<u8>>,
    x: Option<Seq<char>>,
    y: Option<Seq<char>>,
)
    requires
        reads_alike(support),
        is_subscribed_plan(support, subscription, x),
        is_subscribed_plan(support, subscription, y),
    ensures
        x == y,
{
}

proof fn lemma_completes_usage<S: ConsoleSupport>(
    support: S,
    usage: Seq<u8>,
    subscription: Option<Seq<u8>>,
    quota_config: Option<Seq<u8>>,
    snapshot: TokenPlanSnapshot<S::Number, S::Date>,
)
    requires
        reads_alike(support),
        is_parsed_usage(support, usage, subscription, quota_config, Ok(snapshot)),
    ensures
        completes_usage(support, subscription, quota_config, snapshot),
{
    snapshots_report_a_window(support, usage, subscription, quota_config, snapshot);
    let plan = choose|code: Option<Seq<char>>|
        #[trigger] is_subscribed_plan(support, subscription, code) && fits_plan(
            snapshot,
            code,
            quota_config,
        );
    assert forall|code: Option<Seq<char>>| #[trigger]
        is_subscribed_plan(support, subscription, code) implies code == plan by {
        lemma_plan_read_alike(support, subscription, code, plan);
    }
}

/// An answer that reports a window, of whatever length, is never taken for a
/// success without windows.
pub proof fn windows_are_not_asked_for_again<S: ConsoleSupport>(
    support: S,
    usage: Seq<u8>,
    subscription: Option<Seq<u8>>,
    quota_config: Option<Seq<u8>>,
    snapshot: TokenPlanSnapshot<S::Number, S::Date>,
    windowless: bool,
)
    requires
        reads_alike(support),
        is_parsed_usage(support, usage, subscription, quota_config, Ok(snapshot)),
        is_windowless_success_of(support, usage, windowless),
    ensures
        !windowless,
{
}

/// Whether an answer is a success without windows is told the same each time.
pub(crate) proof fn lemma_windowless_read_alike<S: ConsoleSupport>(
    support: S,
    usage: Seq<u8>,
    x: bool,
    y: bool,
)
    requires
        reads_alike(support),
        is_windowless_success_of(support, usage, x),
        is_windowless_success_of(support, usage, y),
    ensures
        x == y,
{
}

/// How many events a fetch can still wait for.
pub open spec fn events_left(state: FetchState) -> int {
    match state.phase {
        FetchPhase::Subscription => 2 * MAX_USAGE_ATTEMPTS + 1,
        FetchPhase::QuotaConfig => 2 * MAX_USAGE_ATTEMPTS,
        FetchPhase::Usage => 2 * (MAX_USAGE_ATTEMPTS - state.attempt) - 1,
        FetchPhase::Delay => 2 * (MAX_USAGE_ATTEMPTS - state.attempt),
        FetchPhase::Ended => 0,
    }
}

/// A fetch always comes to an end: every step brings it closer, and it ends
/// exactly with the step that says so.
pub proof fn fetches_come_to_an_end<S: ConsoleSupport, E>(
    support: S,
    console: ConsoleProfile,
    state: FetchState,
    event: FetchEvent<E>,
    next: FetchState,
    action: FetchAction<S::Number, S::Date, E>,
)
    requires
        state.well_formed(),
        is_step(support, console, state, event, next, action),
    ensures
        next.well_formed(),
        0 <= events_left(next) < events_left(state),
        next.phase is Ended <==> action is Finish,
{
}

/// How often a fetch can still ask for the usage.
pub open spec fn usage_requests_left(state: FetchState) -> int {
    match state.phase {
        FetchPhase::Subscription | FetchPhase::QuotaConfig => MAX_USAGE_ATTEMPTS as int,
        FetchPhase::Usage => MAX_USAGE_ATTEMPTS - 1 - state.attempt,
        FetchPhase::Delay => MAX_USAGE_ATTEMPTS - state.attempt,
        FetchPhase::Ended => 0,
    }
}

/// The usage is asked for a few times at most: every such request uses one up,
/// and no other step gives one back.
pub proof fn usage_requests_are_bounded<S: ConsoleSupport, E>(
    support: S,
    console: ConsoleProfile,
    state: FetchState,
    event: FetchEvent<E>,
    next: FetchState,
    action: FetchAction<S::Number, S::Date, E>,
)
    requires
        state.well_formed(),
        is_step(support, console, state, event, next, action),
    ensures
        0 <= usage_requests_left(next) <= usage_requests_left(state) <= MAX_USAGE_ATTEMPTS,
        next.phase is Usage ==> usage_requests_left(next) == usage_requests_left(state) - 1,
        next.phase is Usage <==> posts(action, console.personal_usage_api@, seq![])
            && !(state.phase is Subscription),
{
}

/// A fetch does without the subscription and the quotas: whatever their
/// requests come to, it goes on to ask for the usage.
pub proof fn optional_answers_end_no_fetch<S: ConsoleSupport, E>(
    support: S,
    console: ConsoleProfile,
    state: FetchState,
    event: FetchEvent<E>,
    next: FetchState,
    action: FetchAction<S::Number, S::Date, E>,
)
    requires
        state.phase is Subscription || state.phase is QuotaConfig,
        is_step(support, console, state, event, next, action),
    ensures
        action is Post,
        state.phase is QuotaConfig ==> posts(action, console.personal_usage_api@, seq![]),
{
}

/// Only a success without windows is asked for again, after a delay, and only
/// while attempts are left.
pub proof fn only_windowless_successes_are_retried<S: ConsoleSupport, E>(
    support: S,
    console: ConsoleProfile,
    state: FetchState,
    body: Vec<u8>,
    next: FetchState,
    action: FetchAction<S::Number, S::Date, E>,
)
    requires
        state.phase is Usage,
        is_step(support, console, state, FetchEvent::<E>::Posted(Ok(body)), next, action),
        !(action is Finish),
    ensures
        is_windowless_success_of(support, body@, true),
        next.phase is Delay,
        next.attempt == state.attempt + 1 < MAX_USAGE_ATTEMPTS,
{
}

} // verus!
