//! The token plan console: its regions, and the conventions that every plan of
//! it shares.

use crate::error::ProviderError;
use crate::json::Json;
use crate::text::str_views;
use vstd::prelude::*;

verus! {

/// One region of the token plan console.
pub struct AlibabaTokenPlanRegion {
    /// The commodity that a subscription is looked up by.
    pub product_code: String,
    /// The origin that requests claim.
    pub gateway_base_url: String,
    /// The page that requests claim to come from.
    pub dashboard_url: String,
    /// Where the console's API is reached.
    pub quota_base_url: String,
    /// The gateway action of the personal plan.
    pub personal_api_action: String,
    /// The region's own identifier.
    pub current_region_id: String,
    /// The site name of the personal plan's console.
    pub personal_console_site: String,
}

/// What is the same for every region of the console.
pub struct ConsoleProfile {
    /// The language that answers are asked in.
    pub language: String,
    /// The console product of the personal plan.
    pub personal_console_product: String,
    /// The browser that requests claim to come from.
    pub user_agent: String,
    /// The API that tells the subscription.
    pub personal_subscription_api: String,
    /// The API that tells the quotas of all plans.
    pub personal_quota_config_api: String,
    /// The API that tells the usage.
    pub personal_usage_api: String,
}

/// The conventions that every plan of the console shares, for reading cookies
/// and payloads. The rules of a plan are stated for any such conventions.
pub trait ConsoleSupport {
    /// A quantity read from a payload.
    type Number;

    /// A point in time read from a payload.
    type Date;

    /// The value of the cookie of this name in a cookie header.
    fn cookie_value(&self, name: &str, cookie_header: &str) -> Option<String>;

    /// The document with texts that are documents themselves opened up.
    fn expand_json_strings(&self, document: Json) -> Json;

    /// The object in the document that has one of the keys.
    fn find_object_containing_any_of(&self, document: &Json, keys: &[&str]) -> Option<Json>;

    /// The quantity under the key of an object.
    fn number_field(&self, object: &Json, key: &str) -> Option<Self::Number>;

    /// The percentage that a reported fraction stands for.
    fn percentage_points(&self, fraction: Option<Self::Number>) -> Option<Self::Number>;

    /// The point in time under the key of an object.
    fn date_field(&self, object: &Json, key: &str) -> Option<Self::Date>;

    /// The failure that the document reports, if it reports one.
    fn throw_if_error_payload(&self, document: &Json) -> Result<(), ProviderError>;

    /// Whether the answer looks like a login page.
    fn is_likely_login_html(&self, data: &[u8]) -> bool;
}

/// Whether `value` is what the conventions read as the cookie of this name.
pub open spec fn reads_cookie<S: ConsoleSupport>(
    support: S,
    name: Seq<char>,
    cookie_header: Seq<char>,
    value: Option<String>,
) -> bool {
    exists|n: &str, h: &str|
        n@ == name && h@ == cookie_header && #[trigger] call_ensures(
            S::cookie_value,
            (&support, n, h),
            value,
        )
}

/// Whether `expanded` is the document as the conventions open it up.
pub open spec fn expands<S: ConsoleSupport>(support: S, document: Json, expanded: Json) -> bool {
    call_ensures(S::expand_json_strings, (&support, document), expanded)
}

/// Whether `object` is what the conventions find by the keys.
pub open spec fn finds_object<S: ConsoleSupport>(
    support: S,
    document: Json,
    keys: Seq<Seq<char>>,
    object: Option<Json>,
) -> bool {
    exists|k: &[&str]|
        str_views(k@) == keys && #[trigger] call_ensures(
            S::find_object_containing_any_of,
            (&support, &document, k),
            object,
        )
}

/// Whether `number` is the quantity that the conventions read under the key.
pub open spec fn reads_number<S: ConsoleSupport>(
    support: S,
    object: Json,
    key: Seq<char>,
    number: Option<S::Number>,
) -> bool {
    exists|k: &str|
        k@ == key && #[trigger] call_ensures(S::number_field, (&support, &object, k), number)
}

/// Whether `percent` is the percentage that the conventions make of the
/// quantity under the key.
pub open spec fn reads_percentage<S: ConsoleSupport>(
    support: S,
    object: Json,
    key: Seq<char>,
    percent: Option<S::Number>,
) -> bool {
    exists|fraction: Option<S::Number>|
        reads_number(support, object, key, fraction) && #[trigger] call_ensures(
            S::percentage_points,
            (&support, fraction),
            percent,
        )
}

/// Whether `date` is the point in time that the conventions read under the
/// key.
pub open spec fn reads_date<S: ConsoleSupport>(
    support: S,
    object: Json,
    key: Seq<char>,
    date: Option<S::Date>,
) -> bool {
    exists|k: &str|
        k@ == key && #[trigger] call_ensures(S::date_field, (&support, &object, k), date)
}

/// Whether `verdict` is what the conventions say of failures in the document.
pub open spec fn reports_failure<S: ConsoleSupport>(
    support: S,
    document: Json,
    verdict: Result<(), ProviderError>,
) -> bool {
    call_ensures(S::throw_if_error_payload, (&support, &document), verdict)
}

/// Whether the conventions take the answer for a login page.
pub open spec fn looks_like_login<S: ConsoleSupport>(
    support: S,
    data: Seq<u8>,
    login: bool,
) -> bool {
    exists|d: &[u8]|
        d@ == data && #[trigger] call_ensures(S::is_likely_login_html, (&support, d), login)
}

} // verus!
