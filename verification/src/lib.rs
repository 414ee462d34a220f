//! Session cookies and plan usage of web-backed providers.

pub mod browser_cookies;
pub mod browser_scan;
pub mod console;
pub mod context;
pub mod cookie_laws;
pub mod cookie_source;
pub mod error;
pub mod fetch_laws;
pub mod header_laws;
pub mod json;
pub mod json_laws;
pub mod key_summary;
pub mod normalizing_laws;
pub mod personal_fetch;
pub mod personal_laws;
pub mod personal_request;
pub mod personal_usage;
pub mod request_laws;
pub mod session_cookies;
pub mod session_laws;
pub mod site_url;
pub mod source_laws;
pub mod summary_laws;
pub mod text;
pub mod text_laws;
pub mod url_laws;
pub mod usage_laws;


