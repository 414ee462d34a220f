//! What a request for the personal plan's API says, and what the status of an
//! answer means.

use crate::console::{reads_cookie, AlibabaTokenPlanRegion, ConsoleProfile, ConsoleSupport};
use crate::error::ErrorView;
use crate::json::{json_text, member, with_entry, EntriesView, JsonView};
use crate::personal_laws::{cornerstone_of, lemma_absent, lemma_params_data, lemma_present};
use crate::personal_request::{
    api_url, cornerstone_members, fields_view, form_view, headers_view, is_params_text,
    is_random_uuid, is_request, object_of, page_domain, params_view, reads_csrf, response_view,
    status_line, without_prefixes, PersonalApiContext, PersonalRequest,
};
use crate::session_laws::{lacks, lemma_first_index_is};
use crate::text::{borrowed_view, decimal, digit, lowered, text_view, trimmed};
use vstd::prelude::*;

verus! {

/// Whether a field of this name is there exactly once, with this value.
pub open spec fn has_one(
    fields: Seq<(Seq<char>, Seq<char>)>,
    name: Seq<char>,
    value: Seq<char>,
) -> bool {
    exists|i: int|
        0 <= i < fields.len() && #[trigger] fields[i] == (name, value) && forall|j: int|
            0 <= j < fields.len() && (#[trigger] fields[j]).0 == name ==> j == i
}

/// Whether no field has this name.
pub open spec fn has_none(fields: Seq<(Seq<char>, Seq<char>)>, name: Seq<char>) -> bool {
    forall|j: int| 0 <= j < fields.len() ==> (#[trigger] fields[j]).0 != name
}

proof fn lemma_header_names()
    ensures
        "Cookie"@.len() == 6 && "Cookie"@[0] == 'C',
        "Accept"@.len() == 6 && "Accept"@[0] == 'A',
        "Content-Type"@.len() == 12 && "Content-Type"@[0] == 'C',
        "Origin"@.len() == 6 && "Origin"@[0] == 'O',
        "Referer"@.len() == 7,
        "User-Agent"@.len() == 10,
        "X-Requested-With"@.len() == 16,
        "x-xsrf-token"@.len() == 12 && "x-xsrf-token"@[0] == 'x' && "x-xsrf-token"@[2] == 'x',
        "x-csrf-token"@.len() == 12 && "x-csrf-token"@[0] == 'x' && "x-csrf-token"@[2] == 'c',
{
    reveal_strlit("Cookie");
    reveal_strlit("Accept");
    reveal_strlit("Content-Type");
    reveal_strlit("Origin");
    reveal_strlit("Referer");
    reveal_strlit("User-Agent");
    reveal_strlit("X-Requested-With");
    reveal_strlit("x-xsrf-token");
    reveal_strlit("x-csrf-token");
}

/// The headers of a request say, each once, that its body is a url-encoded form,
/// whose session it comes with, and the gateway and the page that it comes from.
/// The token against forged requests goes in both of its headers, or in neither.
pub proof fn headers_describe_the_request(
    cookie_header: Seq<char>,
    region: AlibabaTokenPlanRegion,
    console: ConsoleProfile,
    csrf: Option<Seq<char>>,
)
    ensures
        ({
            let headers = headers_view(cookie_header, region, console, csrf);
            &&& has_one(headers, "Content-Type"@, "application/x-www-form-urlencoded"@)
            &&& has_one(headers, "Cookie"@, cookie_header)
            &&& has_one(headers, "Accept"@, "application/json, text/plain, */*"@)
            &&& has_one(headers, "Origin"@, region.gateway_base_url@)
            &&& has_one(headers, "Referer"@, region.dashboard_url@)
            &&& has_one(headers, "User-Agent"@, console.user_agent@)
            &&& has_one(headers, "X-Requested-With"@, "XMLHttpRequest"@)
            &&& match csrf {
                Some(token) => {
                    &&& headers.len() == 9
                    &&& has_one(headers, "x-xsrf-token"@, token)
                    &&& has_one(headers, "x-csrf-token"@, token)
                },
                None => headers.len() == 7,
            }
        }),
{
    lemma_header_names();
    let headers = headers_view(cookie_header, region, console, csrf);
    assert(headers[0] == ("Cookie"@, cookie_header));
    assert(headers[1] == ("Accept"@, "application/json, text/plain, */*"@));
    assert(headers[2] == ("Content-Type"@, "application/x-www-form-urlencoded"@));
    assert(headers[3] == ("Origin"@, region.gateway_base_url@));
    assert(headers[4] == ("Referer"@, region.dashboard_url@));
    assert(headers[5] == ("User-Agent"@, console.user_agent@));
    assert(headers[6] == ("X-Requested-With"@, "XMLHttpRequest"@));
    if csrf is Some {
        assert(headers[7] == ("x-xsrf-token"@, csrf->0));
        assert(headers[8] == ("x-csrf-token"@, csrf->0));
    }
}

/// The token against forged requests is that of the login cookie, or else that
/// of the plain one, or there is none.
pub proof fn tokens_come_from_the_cookies<S: ConsoleSupport>(
    support: S,
    cookie_header: Seq<char>,
    token: Option<String>,
)
    requires
        reads_csrf(support, cookie_header, token),
    ensures
        (token is Some && reads_cookie(support, "login_aliyunid_csrf"@, cookie_header, token)) || (
        reads_cookie(support, "login_aliyunid_csrf"@, cookie_header, None) && reads_cookie(
            support,
            "csrf"@,
            cookie_header,
            token,
        )),
{
}

/// A cookie is read by its name from the header.
pub proof fn cookies_are_asked_for_by_name<S: ConsoleSupport>(
    support: S,
    name: Seq<char>,
    cookie_header: Seq<char>,
    value: Option<String>,
)
    requires
        reads_cookie(support, name, cookie_header, value),
    ensures
        exists|n: &str, h: &str|
            n@ == name && h@ == cookie_header && #[trigger] call_ensures(
                S::cookie_value,
                (&support, n, h),
                value,
            ),
{
}

/// The form of a request has each of its fields once: what product and action of
/// the console is asked, for which region and in which language, and with which
/// parameters. A token that is not blank goes along, and nothing else does.
pub proof fn forms_say_what_is_asked(
    params: Seq<char>,
    region: AlibabaTokenPlanRegion,
    console: ConsoleProfile,
    sec_token: Option<Seq<char>>,
)
    ensures
        ({
            let form = form_view(params, region, console, sec_token);
            &&& has_one(form, "product"@, console.personal_console_product@)
            &&& has_one(form, "action"@, region.personal_api_action@)
            &&& has_one(form, "region"@, region.current_region_id@)
            &&& has_one(form, "language"@, console.language@)
            &&& has_one(form, "params"@, params)
            &&& match sec_token {
                Some(token) if trimmed(token).len() > 0 => form.len() == 6 && has_one(
                    form,
                    "sec_token"@,
                    token,
                ),
                _ => form.len() == 5 && has_none(form, "sec_token"@),
            }
        }),
{
    let form = form_view(params, region, console, sec_token);
    reveal_strlit("product");
    reveal_strlit("action");
    reveal_strlit("region");
    reveal_strlit("language");
    reveal_strlit("params");
    reveal_strlit("sec_token");
    assert("product"@.len() == 7 && "action"@.len() == 6 && "region"@.len() == 6
        && "language"@.len() == 8 && "params"@.len() == 6 && "sec_token"@.len() == 9);
    assert("action"@[0] == 'a' && "region"@[0] == 'r' && "params"@[0] == 'p');
    assert(form[0] == ("product"@, console.personal_console_product@));
    assert(form[1] == ("action"@, region.personal_api_action@));
    assert(form[2] == ("region"@, region.current_region_id@));
    assert(form[3] == ("language"@, console.language@));
    assert(form[4] == ("params"@, params));
    if form.len() == 6 {
        assert(form[5] == ("sec_token"@, sec_token->0));
    }
}

/// The URL of a request is the region's, and names the action, the product and
/// the API.
pub proof fn urls_name_what_is_asked(
    api: Seq<char>,
    region: AlibabaTokenPlanRegion,
    console: ConsoleProfile,
)
    ensures
        api_url(api, region, console) == region.quota_base_url@ + ("/data/api.json?action="@ + (
        region.personal_api_action@ + ("&product="@ + (console.personal_console_product@ + (
        "&api="@ + (api + "&_v=undefined"@)))))),
{
    assert(api_url(api, region, console) =~= region.quota_base_url@ + ("/data/api.json?action="@ + (
    region.personal_api_action@ + ("&product="@ + (console.personal_console_product@ + ("&api="@ + (
    api + "&_v=undefined"@)))))));
}

/// A request is posted to the URL of its API, with the session's cookies, waits
/// as long as the fetch may take but a second at least, and carries parameters
/// that ask for the API with the data, under some random identifier and the
/// anonymous id of the `cna` cookie.
pub proof fn requests_ask_for_their_api<S: ConsoleSupport>(
    support: S,
    context: PersonalApiContext<'_>,
    api: Seq<char>,
    data: EntriesView,
    request: PersonalRequest,
)
    requires
        is_request(support, context, api, data, request),
    ensures
        request.url@ == api_url(api, *context.region, *context.console),
        request.timeout_secs == (if context.fetch_context.web_timeout == 0 {
            1
        } else {
            context.fetch_context.web_timeout
        }),
        has_one(
            fields_view(request.headers@),
            "Content-Type"@,
            "application/x-www-form-urlencoded"@,
        ),
        has_one(fields_view(request.headers@), "Cookie"@, context.cookie_header@),
        has_one(fields_view(request.headers@), "Origin"@, context.region.gateway_base_url@),
        has_one(fields_view(request.headers@), "Referer"@, context.region.dashboard_url@),
        has_one(fields_view(request.headers@), "User-Agent"@, context.console.user_agent@),
        exists|csrf: Option<String>|
            #[trigger] reads_csrf(support, context.cookie_header@, csrf) && match csrf {
                Some(token) => has_one(fields_view(request.headers@), "x-xsrf-token"@, token@)
                    && has_one(fields_view(request.headers@), "x-csrf-token"@, token@),
                None => request.headers@.len() == 7,
            },
        exists|trace_id: Seq<char>, cna: Option<String>|
            is_random_uuid(trace_id) && #[trigger] reads_cookie(
                support,
                "cna"@,
                context.cookie_header@,
                cna,
            ) && has_one(
                fields_view(request.form@),
                "params"@,
                json_text(
                    #[trigger] params_view(
                        trace_id,
                        api,
                        data,
                        text_view(cna),
                        *context.region,
                        *context.console,
                    ),
                ),
            ),
        context.sec_token matches Some(token) && trimmed(token@).len() > 0 ==> has_one(
            fields_view(request.form@),
            "sec_token"@,
            context.sec_token->0@,
        ),
        context.sec_token is None ==> has_none(fields_view(request.form@), "sec_token"@),
{
    let csrf = choose|csrf: Option<String>|
        #[trigger] reads_csrf(support, context.cookie_header@, csrf) && fields_view(
            request.headers@,
        ) == headers_view(
            context.cookie_header@,
            *context.region,
            *context.console,
            text_view(csrf),
        );
    headers_describe_the_request(
        context.cookie_header@,
        *context.region,
        *context.console,
        text_view(csrf),
    );
    assert(fields_view(request.headers@).len() == request.headers@.len());
    let params = choose|params: Seq<char>|
        #[trigger] is_params_text(
            support,
            api,
            data,
            context.cookie_header@,
            *context.region,
            *context.console,
            params,
        ) && fields_view(request.form@) == form_view(
            params,
            *context.region,
            *context.console,
            borrowed_view(context.sec_token),
        );
    forms_say_what_is_asked(
        params,
        *context.region,
        *context.console,
        borrowed_view(context.sec_token),
    );
}

proof fn lemma_member_names()
    ensures
        "feTraceId"@.len() == 9,
        "feURL"@.len() == 5,
        "protocol"@.len() == 8,
        "console"@.len() == 7,
        "productCode"@.len() == 11 && "productCode"@[0] == 'p',
        "switchUserType"@.len() == 14 && "switchUserType"@[0] == 's',
        "domain"@.len() == 6,
        "consoleSite"@.len() == 11 && "consoleSite"@[0] == 'c',
        "userNickName"@.len() == 12,
        "userPrincipalName"@.len() == 17,
        "xsp_lang"@.len() == 8 && "xsp_lang"@[0] == 'x' && "protocol"@[0] == 'p',
        "X-Anonymous-Id"@.len() == 14 && "X-Anonymous-Id"@[0] == 'X',
{
    reveal_strlit("feTraceId");
    reveal_strlit("feURL");
    reveal_strlit("protocol");
    reveal_strlit("console");
    reveal_strlit("productCode");
    reveal_strlit("switchUserType");
    reveal_strlit("domain");
    reveal_strlit("consoleSite");
    reveal_strlit("userNickName");
    reveal_strlit("userPrincipalName");
    reveal_strlit("xsp_lang");
    reveal_strlit("X-Anonymous-Id");
}

/// The parameters of a request name the API, the version of the call and the
/// data, and say who asks: the dashboard of the region, as a personal user, in
/// the console's language, with the anonymous id if there is one.
pub proof fn parameters_say_who_asks(
    trace_id: Seq<char>,
    api: Seq<char>,
    data: EntriesView,
    cna: Option<Seq<char>>,
    region: AlibabaTokenPlanRegion,
    console: ConsoleProfile,
)
    ensures
        ({
            let params = params_view(trace_id, api, data, cna, region, console);
            let who = cornerstone_of(params)->0;
            let none: Seq<char> = seq![];
            &&& member(params, "Api"@) == Some(JsonView::Text(api))
            &&& member(params, "V"@) == Some(JsonView::Text("1.0"@))
            &&& cornerstone_of(params) is Some
            &&& member(who, "feTraceId"@) == Some(JsonView::Text(trace_id))
            &&& member(who, "feURL"@) == Some(JsonView::Text(region.dashboard_url@))
            &&& member(who, "protocol"@) == Some(JsonView::Text("V2"@))
            &&& member(who, "console"@) == Some(JsonView::Text("ONE_CONSOLE"@))
            &&& member(who, "productCode"@) == Some(JsonView::Text("p_efm"@))
            &&& member(who, "switchUserType"@) == Some(JsonView::Number("3"@))
            &&& member(who, "domain"@) == Some(
                JsonView::Text(page_domain(region.dashboard_url@)),
            )
            &&& member(who, "consoleSite"@) == Some(
                JsonView::Text(region.personal_console_site@),
            )
            &&& member(who, "userNickName"@) == Some(JsonView::Text(none))
            &&& member(who, "userPrincipalName"@) == Some(JsonView::Text(none))
            &&& member(who, "xsp_lang"@) == Some(JsonView::Text(console.language@))
            &&& member(who, "X-Anonymous-Id"@) == (match cna {
                Some(id) => Some(JsonView::Text(id)),
                None => None,
            })
        }),
{
    lemma_params_data(trace_id, api, data, cna, region, console);
    lemma_member_names();
    let members = cornerstone_members(trace_id, cna, region, console);
    reveal_strlit("3");
    assert(decimal(3) =~= seq![digit(3)]);
    assert("3"@ =~= decimal(3));
    lemma_present(members, 0);
    lemma_present(members, 1);
    lemma_present(members, 2);
    lemma_present(members, 3);
    lemma_present(members, 4);
    lemma_present(members, 5);
    lemma_present(members, 6);
    lemma_present(members, 7);
    lemma_present(members, 8);
    lemma_present(members, 9);
    lemma_present(members, 10);
    if cna is Some {
        lemma_present(members, 11);
    } else {
        lemma_absent(members, "X-Anonymous-Id"@);
    }
}

/// Nothing else is said of who asks, nor beside the API, the version and the data.
pub proof fn parameters_say_nothing_else(
    trace_id: Seq<char>,
    api: Seq<char>,
    data: EntriesView,
    cna: Option<Seq<char>>,
    region: AlibabaTokenPlanRegion,
    console: ConsoleProfile,
    key: Seq<char>,
)
    requires
        key != "feTraceId"@ && key != "feURL"@ && key != "protocol"@ && key != "console"@ && key
            != "productCode"@ && key != "switchUserType"@ && key != "domain"@ && key
            != "consoleSite"@ && key != "userNickName"@ && key != "userPrincipalName"@ && key
            != "xsp_lang"@ && key != "X-Anonymous-Id"@,
    ensures
        member(cornerstone_of(params_view(trace_id, api, data, cna, region, console))->0, key)
            is None,
        key != "Api"@ && key != "V"@ && key != "Data"@ ==> member(
            params_view(trace_id, api, data, cna, region, console),
            key,
        ) is None,
{
    if key != "Api"@ && key != "V"@ && key != "Data"@ {
        let cornerstone = JsonView::Object(
            object_of(cornerstone_members(trace_id, cna, region, console)),
        );
        let outer = seq![
            ("Api"@, JsonView::Text(api)),
            ("V"@, JsonView::Text("1.0"@)),
            ("Data"@, JsonView::Object(with_entry(data, "cornerstoneParam"@, cornerstone))),
        ];
        assert forall|i: int| 0 <= i < outer.len() implies (#[trigger] outer[i]).0 != key by {
            assert(0 <= i < 3);
        }
        lemma_absent(outer, key);
    }
    lemma_params_data(trace_id, api, data, cna, region, console);
    let members = cornerstone_members(trace_id, cna, region, console);
    assert forall|i: int| 0 <= i < members.len() implies (#[trigger] members[i]).0 != key by {
        assert(0 <= i < 12);
    }
    lemma_absent(members, key);
}

proof fn lemma_no_prefix(host: Seq<char>, tail: Seq<char>)
    requires
        lacks(host, '/'),
        tail.len() > 0 ==> tail[0] == '/',
        host != "https:"@,
        host != "http:"@,
    ensures
        !("https://"@.is_prefix_of(host + tail)),
        !("http://"@.is_prefix_of(host + tail)),
{
    reveal_strlit("https://");
    reveal_strlit("http://");
    reveal_strlit("https:");
    reveal_strlit("http:");
    let s = host + tail;
    if "https://"@.is_prefix_of(s) {
        assert(s[6] == "https://"@[6]);
        assert(host.len() <= 6) by {
            if host.len() > 6 {
                assert(host[6] == s[6]);
            }
        }
        assert(host.len() == 6) by {
            if host.len() < 6 {
                let n = host.len() as int;
                assert(s[n] == tail[0]);
                assert(s[n] == "https://"@[n]);
            }
        }
        assert forall|i: int| 0 <= i < 6 implies host[i] == "https:"@[i] by {
            assert(s[i] == "https://"@[i]);
        }
        assert(host =~= "https:"@);
    }
    if "http://"@.is_prefix_of(s) {
        assert(s[5] == "http://"@[5]);
        assert(host.len() <= 5) by {
            if host.len() > 5 {
                assert(host[5] == s[5]);
            }
        }
        assert(host.len() == 5) by {
            if host.len() < 5 {
                let n = host.len() as int;
                assert(s[n] == tail[0]);
                assert(s[n] == "http://"@[n]);
            }
        }
        assert forall|i: int| 0 <= i < 5 implies host[i] == "http:"@[i] by {
            assert(s[i] == "http://"@[i]);
        }
        assert(host =~= "http:"@);
    }
}

/// The domain of a page is its host: what stands between the scheme, if it is
/// there, and the path.
pub proof fn domains_are_hosts(scheme: Seq<char>, host: Seq<char>, tail: Seq<char>)
    requires
        scheme == "https://"@ || scheme == "http://"@ || scheme.len() == 0,
        lacks(host, '/'),
        host != "https:"@,
        host != "http:"@,
        tail.len() > 0 ==> tail[0] == '/',
    ensures
        page_domain(scheme + host + tail) == host,
{
    let s = host + tail;
    let page = scheme + host + tail;
    lemma_no_prefix(host, tail);
    reveal_strlit("https://");
    reveal_strlit("http://");
    assert(page =~= scheme + s);
    reveal_with_fuel(without_prefixes, 2);
    if scheme == "https://"@ {
        assert(page.subrange(0, 8) =~= scheme);
        assert(page.skip(8) =~= s);
    } else if scheme == "http://"@ {
        assert(page[4] == ':');
        assert(!("https://"@.is_prefix_of(page))) by {
            if "https://"@.is_prefix_of(page) {
                assert(page[4] == "https://"@[4]);
            }
        }
        assert(page.subrange(0, 7) =~= scheme);
        assert(page.skip(7) =~= s);
    } else {
        assert(page =~= s);
    }
    lemma_first_index_is(s, '/', host.len());
    assert(s.take(host.len() as int) =~= host);
}

/// The identifier of a request is a text of thirty-six characters, in lower case,
/// with hyphens in four places and hexadecimal digits in all others, the first of
/// the third group telling that it is random.
pub proof fn trace_ids_are_random_identifiers(s: Seq<char>, i: int)
    requires
        is_random_uuid(s),
        0 <= i < 36,
    ensures
        s.len() == 36,
        lowered(s) == s,
        s[i] == '-' <==> i == 8 || i == 13 || i == 18 || i == 23,
        s[14] == '4',
        s[i] != '-' ==> 48 <= s[i] as int <= 57 || 97 <= s[i] as int <= 102,
{
    assert(lowered(s) =~= s);
}

/// A status from 200 to 299 lets the body through as it is; 401 and 403 ask for a
/// new session, whatever the body; any other status is a failure that names it.
pub proof fn statuses_decide(status: u16, body: Seq<u8>)
    ensures
        200 <= status < 300 ==> response_view(status, body) == Ok::<Seq<u8>, ErrorView>(body),
        status == 401 || status == 403 ==> response_view(status, body) == Err::<Seq<u8>, ErrorView>(
            ErrorView::AuthRequired,
        ),
        !(200 <= status < 300) && status != 401 && status != 403 ==> response_view(status, body)
            == Err::<Seq<u8>, ErrorView>(
            ErrorView::Other(
                "Alibaba Token Plan Personal API error: HTTP "@ + status_line(status),
            ),
        ),
{
}

} // verus!
