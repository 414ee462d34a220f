//! The requests that the personal plan's console API is asked with, and what
//! the status of an answer says.

use crate::console::{
    reads_cookie, AlibabaTokenPlanRegion, ConsoleProfile, ConsoleSupport,
};
use crate::context::FetchContext;
use crate::error::{ErrorView, ProviderError};
use crate::json::{
    integer_json, json_text, with_entry, EntriesView, Json, JsonMap, JsonView,
};
use crate::text::{
    borrowed_view, chars_of, decimal, first_index, lowered, position, strip_prefix, text_view,
    to_lowercase, trim, trimmed,
};
use vstd::prelude::*;

verus! {

/// What one request of the personal plan is asked with.
pub struct PersonalApiContext<'a> {
    pub cookie_header: &'a str,
    pub region: &'a AlibabaTokenPlanRegion,
    pub sec_token: Option<&'a str>,
    pub fetch_context: &'a FetchContext,
    pub console: &'a ConsoleProfile,
}

/// A request, ready to be posted.
pub struct PersonalRequest {
    pub url: String,
    /// How long to wait for the answer, in seconds.
    pub timeout_secs: u64,
    pub headers: Vec<(&'static str, String)>,
    pub form: Vec<(&'static str, String)>,
}

/// The model of named texts, such as headers or the fields of a form.
pub open spec fn fields_view(fields: Seq<(&'static str, String)>) -> Seq<(Seq<char>, Seq<char>)> {
    Seq::new(fields.len(), |i: int| (fields[i].0@, fields[i].1@))
}

/// Where an API of the personal plan is reached.
pub open spec fn api_url(
    api: Seq<char>,
    region: AlibabaTokenPlanRegion,
    console: ConsoleProfile,
) -> Seq<char> {
    region.quota_base_url@ + "/data/api.json?action="@ + region.personal_api_action@
        + "&product="@ + console.personal_console_product@ + "&api="@ + api + "&_v=undefined"@
}

/// The text without the prefix, however often it stands there.
pub open spec fn without_prefixes(s: Seq<char>, prefix: Seq<char>) -> Seq<char>
    decreases s.len(),
{
    if prefix.len() > 0 && prefix.is_prefix_of(s) {
        without_prefixes(s.skip(prefix.len() as int), prefix)
    } else {
        s
    }
}

/// The host in a page's address: what stands between the scheme and the first
/// slash.
pub open spec fn page_domain(page: Seq<char>) -> Seq<char> {
    let rest = without_prefixes(without_prefixes(page, "https://"@), "http://"@);
    rest.take(first_index(rest, '/') as int)
}

/// The entries that come of putting each member in, one after the other.
pub open spec fn object_of(members: EntriesView) -> EntriesView
    decreases members.len(),
{
    if members.len() == 0 {
        seq![]
    } else {
        with_entry(object_of(members.drop_last()), members.last().0, members.last().1)
    }
}

/// What tells the console who asks. The gateway is left to find the workspace
/// of the session itself: no workspace agent is named.
pub open spec fn cornerstone_members(
    trace_id: Seq<char>,
    cna: Option<Seq<char>>,
    region: AlibabaTokenPlanRegion,
    console: ConsoleProfile,
) -> EntriesView {
    let members = seq![
        ("feTraceId"@, JsonView::Text(trace_id)),
        ("feURL"@, JsonView::Text(region.dashboard_url@)),
        ("protocol"@, JsonView::Text("V2"@)),
        ("console"@, JsonView::Text("ONE_CONSOLE"@)),
        ("productCode"@, JsonView::Text("p_efm"@)),
        ("switchUserType"@, JsonView::Number(decimal(3))),
        ("domain"@, JsonView::Text(page_domain(region.dashboard_url@))),
        ("consoleSite"@, JsonView::Text(region.personal_console_site@)),
        ("userNickName"@, JsonView::Text(seq![])),
        ("userPrincipalName"@, JsonView::Text(seq![])),
        ("xsp_lang"@, JsonView::Text(console.language@)),
    ];
    match cna {
        Some(id) => members.push(("X-Anonymous-Id"@, JsonView::Text(id))),
        None => members,
    }
}

/// The parameters of a request: the API, and its data with who asks.
pub open spec fn params_view(
    trace_id: Seq<char>,
    api: Seq<char>,
    data: EntriesView,
    cna: Option<Seq<char>>,
    region: AlibabaTokenPlanRegion,
    console: ConsoleProfile,
) -> JsonView {
    let cornerstone = JsonView::Object(
        object_of(cornerstone_members(trace_id, cna, region, console)),
    );
    JsonView::Object(
        object_of(
            seq![
                ("Api"@, JsonView::Text(api)),
                ("V"@, JsonView::Text("1.0"@)),
                ("Data"@, JsonView::Object(with_entry(data, "cornerstoneParam"@, cornerstone))),
            ],
        ),
    )
}

/// The hyphenated lower-case text of a random identifier.
pub open spec fn is_random_uuid(s: Seq<char>) -> bool {
    &&& s.len() == 36
    &&& forall|i: int|
        #![trigger s[i]]
        0 <= i < 36 ==> if i == 8 || i == 13 || i == 18 || i == 23 {
            s[i] == '-'
        } else {
            ('0' <= s[i] && s[i] <= '9') || ('a' <= s[i] && s[i] <= 'f')
        }
    &&& s[14] == '4'
    &&& s[19] == '8' || s[19] == '9' || s[19] == 'a' || s[19] == 'b'
}

/// Calls `Uuid::new_v4` and `to_string`. Claimed: the text is a hyphenated
/// lower-case identifier of the random version; which one is left to chance.
/// `new_v4` panics where the system has no random bytes to give, which no
/// argument decides.
#[verifier::external_body]
fn random_uuid() -> (r: String)
    ensures
        is_random_uuid(r@),
{
    uuid::Uuid::new_v4().to_string()
}

/// A new identifier to trace a request by.
pub fn new_trace_id() -> (r: String)
    ensures
        is_random_uuid(r@),
{
    let id: String = random_uuid();
    assert(lowered(id@) =~= id@);
    to_lowercase(id.as_str())
}

/// Where an API of the personal plan is reached in the region.
pub fn personal_api_url(
    api: &str,
    region: &AlibabaTokenPlanRegion,
    console: &ConsoleProfile,
) -> (r: String)
    ensures
        r@ == api_url(api@, *region, *console),
{
    let mut url: String = region.quota_base_url.clone();
    url.append("/data/api.json?action=");
    url.append(region.personal_api_action.as_str());
    url.append("&product=");
    url.append(console.personal_console_product.as_str());
    url.append("&api=");
    url.append(api);
    url.append("&_v=undefined");
    url
}

fn drop_prefixes<'a>(s: &'a str, prefix: &str) -> (r: &'a str)
    requires
        prefix@.len() > 0,
    ensures
        r@ == without_prefixes(s@, prefix@),
    decreases s@.len(),
{
    match strip_prefix(s, prefix) {
        Some(rest) => drop_prefixes(rest, prefix),
        None => s,
    }
}

/// The host in a page's address.
fn domain_of<'a>(page: &'a str) -> (r: &'a str)
    ensures
        r@ == page_domain(page@),
{
    proof {
        reveal_strlit("https://");
        reveal_strlit("http://");
    }
    let rest: &'a str = drop_prefixes(drop_prefixes(page, "https://"), "http://");
    let n: usize = position(&chars_of(rest), '/');
    assert(rest@.subrange(0, n as int) =~= rest@.take(n as int));
    rest.substring_char(0, n)
}

/// The object with these members.
fn object_from(members: Vec<(&str, Json)>) -> (r: JsonMap)
    ensures
        r@ == object_of(members_view(members@)),
{
    let mut out: JsonMap = JsonMap::new();
    let ghost all = members_view(members@);
    let ghost list = members@;
    assert(all.take(0) =~= seq![]);
    for member in it: members
        invariant
            it.seq() == list,
            all == members_view(list),
            out@ == object_of(all.take(it.index() as int)),
    {
        let ghost i = it.index() as int;
        assert(all.take(i + 1).drop_last() =~= all.take(i));
        assert(all.take(i + 1).last() == (member.0@, member.1@));
        out.insert(member.0.to_string(), member.1);
    }
    assert(all.take(list.len() as int) =~= all);
    out
}

spec fn members_view(members: Seq<(&str, Json)>) -> EntriesView {
    Seq::new(members.len(), |i: int| (members[i].0@, members[i].1@))
}

fn text(t: &str) -> (r: Json)
    ensures
        r@ == JsonView::Text(t@),
{
    Json::Text(t.to_string())
}

/// The parameters of a request, with the identifier to trace it by and the
/// console's anonymous id, if there is one.
pub fn personal_params_document(
    trace_id: &str,
    api: &str,
    data_parameters: JsonMap,
    cna: Option<&str>,
    region: &AlibabaTokenPlanRegion,
    console: &ConsoleProfile,
) -> (r: JsonMap)
    ensures
        JsonView::Object(r@) == params_view(
            trace_id@,
            api@,
            data_parameters@,
            borrowed_view(cna),
            *region,
            *console,
        ),
{
    proof {
        reveal_strlit("");
        assert(""@ =~= Seq::<char>::empty());
    }
    let mut members: Vec<(&str, Json)> = Vec::new();
    members.push(("feTraceId", text(trace_id)));
    members.push(("feURL", text(region.dashboard_url.as_str())));
    members.push(("protocol", text("V2")));
    members.push(("console", text("ONE_CONSOLE")));
    members.push(("productCode", text("p_efm")));
    members.push(("switchUserType", integer_json(3)));
    members.push(("domain", text(domain_of(region.dashboard_url.as_str()))));
    members.push(("consoleSite", text(region.personal_console_site.as_str())));
    members.push(("userNickName", text("")));
    members.push(("userPrincipalName", text("")));
    members.push(("xsp_lang", text(console.language.as_str())));
    if let Some(id) = cna {
        members.push(("X-Anonymous-Id", text(id)));
    }
    assert(members_view(members@) =~= cornerstone_members(
        trace_id@,
        borrowed_view(cna),
        *region,
        *console,
    ));
    let cornerstone: JsonMap = object_from(members);
    let mut data: JsonMap = data_parameters;
    data.insert_object("cornerstoneParam".to_string(), cornerstone);
    let ghost filled = JsonView::Object(data@);
    let mut document: JsonMap = JsonMap::new();
    document.insert("Api".to_string(), text(api));
    document.insert("V".to_string(), text("1.0"));
    document.insert_object("Data".to_string(), data);
    proof {
        reveal_with_fuel(object_of, 4);
        let members = seq![
            ("Api"@, JsonView::Text(api@)),
            ("V"@, JsonView::Text("1.0"@)),
            ("Data"@, filled),
        ];
        assert(members.drop_last() =~= seq![members[0], members[1]]);
        assert(members.drop_last().drop_last() =~= seq![members[0]]);
        assert(members.drop_last().drop_last().drop_last() =~= seq![]);
    }
    document
}

/// Whether `text` is the text of parameters that ask for the API with this
/// data: with some trace identifier, and with the anonymous id that the
/// conventions read from the cookies.
pub open spec fn is_params_text<S: ConsoleSupport>(
    support: S,
    api: Seq<char>,
    data: EntriesView,
    cookie_header: Seq<char>,
    region: AlibabaTokenPlanRegion,
    console: ConsoleProfile,
    text: Seq<char>,
) -> bool {
    exists|trace_id: Seq<char>, cna: Option<String>|
        is_random_uuid(trace_id) && #[trigger] reads_cookie(support, "cna"@, cookie_header, cna)
            && text == json_text(
            #[trigger] params_view(trace_id, api, data, text_view(cna), region, console),
        )
}

/// The parameters of a request as text, with a new identifier to trace it by.
pub fn build_personal_params_json<S: ConsoleSupport>(
    support: &S,
    api: &str,
    data_parameters: JsonMap,
    cookie_header: &str,
    region: &AlibabaTokenPlanRegion,
    console: &ConsoleProfile,
) -> (r: String)
    ensures
        is_params_text(
            *support,
            api@,
            data_parameters@,
            cookie_header@,
            *region,
            *console,
            r@,
        ),
{
    let trace_id: String = new_trace_id();
    let cna: Option<String> = support.cookie_value("cna", cookie_header);
    assert(reads_cookie(*support, "cna"@, cookie_header@, cna));
    let id: Option<&str> = match &cna {
        Some(id) => Some(id.as_str()),
        None => None,
    };
    let document: JsonMap = personal_params_document(
        trace_id.as_str(),
        api,
        data_parameters,
        id,
        region,
        console,
    );
    assert(JsonView::Object(document@) == params_view(
        trace_id@,
        api@,
        data_parameters@,
        text_view(cna),
        *region,
        *console,
    ));
    document.into_text()
}

/// The fields of a request's form. A token that is blank is left out.
pub open spec fn form_view(
    params: Seq<char>,
    region: AlibabaTokenPlanRegion,
    console: ConsoleProfile,
    sec_token: Option<Seq<char>>,
) -> Seq<(Seq<char>, Seq<char>)> {
    let fields = seq![
        ("product"@, console.personal_console_product@),
        ("action"@, region.personal_api_action@),
        ("region"@, region.current_region_id@),
        ("language"@, console.language@),
        ("params"@, params),
    ];
    match sec_token {
        Some(token) => if trimmed(token).len() > 0 {
            fields.push(("sec_token"@, token))
        } else {
            fields
        },
        None => fields,
    }
}

/// The fields of the form with these parameters.
pub fn personal_form_fields(
    params: String,
    region: &AlibabaTokenPlanRegion,
    console: &ConsoleProfile,
    sec_token: Option<&str>,
) -> (r: Vec<(&'static str, String)>)
    ensures
        fields_view(r@) == form_view(params@, *region, *console, borrowed_view(sec_token)),
{
    let mut form: Vec<(&'static str, String)> = Vec::new();
    form.push(("product", console.personal_console_product.clone()));
    form.push(("action", region.personal_api_action.clone()));
    form.push(("region", region.current_region_id.clone()));
    form.push(("language", console.language.clone()));
    form.push(("params", params));
    if let Some(token) = sec_token {
        if !trim(token).is_empty() {
            form.push(("sec_token", token.to_string()));
        }
    }
    assert(fields_view(form@) =~= form_view(params@, *region, *console, borrowed_view(sec_token)));
    form
}

/// The form of a request for the API.
pub fn build_personal_form<S: ConsoleSupport>(
    support: &S,
    api: &str,
    data_parameters: JsonMap,
    cookie_header: &str,
    region: &AlibabaTokenPlanRegion,
    console: &ConsoleProfile,
    sec_token: Option<&str>,
) -> (r: Vec<(&'static str, String)>)
    ensures
        exists|params: Seq<char>|
            #[trigger] is_params_text(
                *support,
                api@,
                data_parameters@,
                cookie_header@,
                *region,
                *console,
                params,
            ) && fields_view(r@) == form_view(
                params,
                *region,
                *console,
                borrowed_view(sec_token),
            ),
{
    let params: String = build_personal_params_json(
        support,
        api,
        data_parameters,
        cookie_header,
        region,
        console,
    );
    personal_form_fields(params, region, console, sec_token)
}

/// The headers of a request.
pub open spec fn headers_view(
    cookie_header: Seq<char>,
    region: AlibabaTokenPlanRegion,
    console: ConsoleProfile,
    csrf: Option<Seq<char>>,
) -> Seq<(Seq<char>, Seq<char>)> {
    let headers = seq![
        ("Cookie"@, cookie_header),
        ("Accept"@, "application/json, text/plain, */*"@),
        ("Content-Type"@, "application/x-www-form-urlencoded"@),
        ("Origin"@, region.gateway_base_url@),
        ("Referer"@, region.dashboard_url@),
        ("User-Agent"@, console.user_agent@),
        ("X-Requested-With"@, "XMLHttpRequest"@),
    ];
    match csrf {
        Some(token) => headers.push(("x-xsrf-token"@, token)).push(("x-csrf-token"@, token)),
        None => headers,
    }
}

/// The headers of a request, with the token against forged requests, if there
/// is one.
pub fn personal_headers(
    cookie_header: &str,
    region: &AlibabaTokenPlanRegion,
    console: &ConsoleProfile,
    csrf: Option<String>,
) -> (r: Vec<(&'static str, String)>)
    ensures
        fields_view(r@) == headers_view(cookie_header@, *region, *console, text_view(csrf)),
{
    let ghost token = text_view(csrf);
    let mut headers: Vec<(&'static str, String)> = Vec::new();
    headers.push(("Cookie", cookie_header.to_string()));
    headers.push(("Accept", "application/json, text/plain, */*".to_string()));
    headers.push(("Content-Type", "application/x-www-form-urlencoded".to_string()));
    headers.push(("Origin", region.gateway_base_url.clone()));
    headers.push(("Referer", region.dashboard_url.clone()));
    headers.push(("User-Agent", console.user_agent.clone()));
    headers.push(("X-Requested-With", "XMLHttpRequest".to_string()));
    if let Some(token) = csrf {
        headers.push(("x-xsrf-token", token.clone()));
        headers.push(("x-csrf-token", token));
    }
    assert(fields_view(headers@) =~= headers_view(cookie_header@, *region, *console, token));
    headers
}

/// Whether `token` is the token against forged requests: the login cookie's, or
/// else that of the plain one.
pub open spec fn reads_csrf<S: ConsoleSupport>(
    support: S,
    cookie_header: Seq<char>,
    token: Option<String>,
) -> bool {
    exists|login: Option<String>|
        #[trigger] reads_cookie(support, "login_aliyunid_csrf"@, cookie_header, login) && (
        if login is Some {
            token == login
        } else {
            reads_cookie(support, "csrf"@, cookie_header, token)
        })
}

/// The token against forged requests that the cookies hold.
pub fn csrf_token<S: ConsoleSupport>(support: &S, cookie_header: &str) -> (r: Option<String>)
    ensures
        reads_csrf(*support, cookie_header@, r),
{
    let login: Option<String> = support.cookie_value("login_aliyunid_csrf", cookie_header);
    assert(reads_cookie(*support, "login_aliyunid_csrf"@, cookie_header@, login));
    match login {
        Some(token) => Some(token),
        None => {
            let plain: Option<String> = support.cookie_value("csrf", cookie_header);
            assert(reads_cookie(*support, "csrf"@, cookie_header@, plain));
            plain
        },
    }
}

/// Whether `request` asks for the API with this data.
pub open spec fn is_request<S: ConsoleSupport>(
    support: S,
    context: PersonalApiContext<'_>,
    api: Seq<char>,
    data: EntriesView,
    request: PersonalRequest,
) -> bool {
    &&& request.url@ == api_url(api, *context.region, *context.console)
    &&& request.timeout_secs == (if context.fetch_context.web_timeout > 1 {
        context.fetch_context.web_timeout
    } else {
        1
    })
    &&& exists|csrf: Option<String>|
        #[trigger] reads_csrf(support, context.cookie_header@, csrf) && fields_view(
            request.headers@,
        ) == headers_view(
            context.cookie_header@,
            *context.region,
            *context.console,
            text_view(csrf),
        )
    &&& exists|params: Seq<char>|
        #[trigger] is_params_text(
            support,
            api,
            data,
            context.cookie_header@,
            *context.region,
            *context.console,
            params,
        ) && fields_view(request.form@) == form_view(
            params,
            *context.region,
            *context.console,
            borrowed_view(context.sec_token),
        )
}

/// The request for an API of the personal plan.
pub fn personal_request<S: ConsoleSupport>(
    support: &S,
    context: &PersonalApiContext<'_>,
    api: &str,
    data_parameters: JsonMap,
) -> (r: PersonalRequest)
    ensures
        is_request(*support, *context, api@, data_parameters@, r),
{
    let url: String = personal_api_url(api, context.region, context.console);
    let form: Vec<(&'static str, String)> = build_personal_form(
        support,
        api,
        data_parameters,
        context.cookie_header,
        context.region,
        context.console,
        context.sec_token,
    );
    let timeout_secs: u64 = if context.fetch_context.web_timeout > 1 {
        context.fetch_context.web_timeout
    } else {
        1
    };
    let csrf: Option<String> = csrf_token(support, context.cookie_header);
    let headers: Vec<(&'static str, String)> = personal_headers(
        context.cookie_header,
        context.region,
        context.console,
        csrf,
    );
    PersonalRequest { url, timeout_secs, headers, form }
}

/// The text of an HTTP status, as the `Display` of `reqwest::StatusCode` gives
/// it.
pub uninterp spec fn status_line(status: u16) -> Seq<char>;

/// Calls `reqwest::StatusCode::from_u16` and `to_string`. Claimed: the text
/// depends on the number alone, and starts with its digits and a space.
/// `from_u16` takes the numbers from 100 to 999.
#[verifier::external_body]
fn status_text(status: u16) -> (r: String)
    requires
        100 <= status <= 999,
    ensures
        r@ == status_line(status),
        (decimal(status as nat) + seq![' ']).is_prefix_of(r@),
{
    reqwest::StatusCode::from_u16(status).unwrap().to_string()
}

/// What an answer with this status comes to.
pub open spec fn response_view(status: u16, body: Seq<u8>) -> Result<Seq<u8>, ErrorView> {
    if 200 <= status <= 299 {
        Ok(body)
    } else if status == 401 || status == 403 {
        Err(ErrorView::AuthRequired)
    } else {
        Err(ErrorView::Other("Alibaba Token Plan Personal API error: HTTP "@ + status_line(status)))
    }
}

/// The body of an answer, if its status is a success. A status that refuses
/// the session asks for a new one.
pub fn personal_response(status: u16, body: Vec<u8>) -> (r: Result<Vec<u8>, ProviderError>)
    requires
        100 <= status <= 999,
    ensures
        match r {
            Ok(data) => response_view(status, body@) == Ok::<Seq<u8>, ErrorView>(data@),
            Err(error) => response_view(status, body@) == Err::<Seq<u8>, ErrorView>(error@),
        },
{
    if 200 <= status && status <= 299 {
        return Ok(body);
    }
    if status == 401 || status == 403 {
        return Err(ProviderError::AuthRequired);
    }
    let mut message: String = "Alibaba Token Plan Personal API error: HTTP ".to_string();
    message.append(status_text(status).as_str());
    Err(ProviderError::Other(message))
}

} // verus!
