//! What the provider adapters decide themselves: whether a provider's
//! configuration can be used, where requests go, and how failures are
//! reported. Sending the requests is left to the caller.
use vstd::prelude::*;
use crate::error::{AppError, ProviderError};
use crate::models::Provider;
use crate::text::{concat2, concat3, has_prefix, str_starts_with};

verus! {

/// The endpoint names an HTTP(S) URL.
pub open spec fn is_http_endpoint(e: Seq<char>) -> bool {
    has_prefix(e, "http://"@) || has_prefix(e, "https://"@)
}

/// The Anthropic adapter's check: an endpoint, an API key, and an HTTP(S)
/// endpoint, in that order.
pub fn validate_anthropic_config(config: &Provider) -> (r: Result<(), AppError>)
    ensures
        config.endpoint@.len() == 0 ==> (r matches Err(AppError::Provider(ProviderError::InvalidConfig(m)))
            && m@ == "Endpoint cannot be empty"@),
        config.endpoint@.len() > 0 && config.api_key@.len() == 0 ==> (r matches Err(AppError::Provider(ProviderError::InvalidConfig(m)))
            && m@ == "API key cannot be empty"@),
        config.endpoint@.len() > 0 && config.api_key@.len() > 0 && !is_http_endpoint(config.endpoint@) ==>
            (r matches Err(AppError::Provider(ProviderError::InvalidConfig(m))) && m@ == "Endpoint must start with http:// or https://"@),
        config.endpoint@.len() > 0 && config.api_key@.len() > 0 && is_http_endpoint(config.endpoint@) ==> r is Ok,
{
    if config.endpoint.as_str().unicode_len() == 0 {
        return Err(AppError::Provider(ProviderError::InvalidConfig(String::from_str("Endpoint cannot be empty"))));
    }
    if config.api_key.as_str().unicode_len() == 0 {
        return Err(AppError::Provider(ProviderError::InvalidConfig(String::from_str("API key cannot be empty"))));
    }
    check_http_endpoint(config)
}

/// The custom adapter's check: an endpoint, and an HTTP(S) one (the API key
/// is optional).
pub fn validate_custom_config(config: &Provider) -> (r: Result<(), AppError>)
    ensures
        config.endpoint@.len() == 0 ==> (r matches Err(AppError::Provider(ProviderError::InvalidConfig(m)))
            && m@ == "Endpoint cannot be empty"@),
        config.endpoint@.len() > 0 && !is_http_endpoint(config.endpoint@) ==>
            (r matches Err(AppError::Provider(ProviderError::InvalidConfig(m))) && m@ == "Endpoint must start with http:// or https://"@),
        config.endpoint@.len() > 0 && is_http_endpoint(config.endpoint@) ==> r is Ok,
{
    if config.endpoint.as_str().unicode_len() == 0 {
        return Err(AppError::Provider(ProviderError::InvalidConfig(String::from_str("Endpoint cannot be empty"))));
    }
    check_http_endpoint(config)
}

fn check_http_endpoint(config: &Provider) -> (r: Result<(), AppError>)
    ensures
        !is_http_endpoint(config.endpoint@) ==> (r matches Err(AppError::Provider(ProviderError::InvalidConfig(m)))
            && m@ == "Endpoint must start with http:// or https://"@),
        is_http_endpoint(config.endpoint@) ==> r is Ok,
{
    let e = config.endpoint.as_str();
    if !str_starts_with(e, "http://") && !str_starts_with(e, "https://") {
        Err(AppError::Provider(ProviderError::InvalidConfig(String::from_str("Endpoint must start with http:// or https://"))))
    } else {
        Ok(())
    }
}

/// Trailing slashes removed.
pub open spec fn trim_slashes(s: Seq<char>) -> Seq<char>
    decreases s.len(),
{
    if s.len() > 0 && s.last() == '/' { trim_slashes(s.drop_last()) } else { s }
}

/// `endpoint` without its trailing slashes, followed by `path`.
pub fn endpoint_url(endpoint: &str, path: &str) -> (u: String)
    ensures
        u@ == trim_slashes(endpoint@) + path@,
{
    let mut n = endpoint.unicode_len();
    assert(endpoint@.subrange(0, n as int) =~= endpoint@);
    while n > 0 && endpoint.get_char(n - 1) == '/'
        invariant
            n <= endpoint@.len(),
            trim_slashes(endpoint@) == trim_slashes(endpoint@.subrange(0, n as int)),
        decreases n,
    {
        assert(endpoint@.subrange(0, n as int).drop_last() =~= endpoint@.subrange(0, n - 1));
        n = n - 1;
    }
    assert(n == 0 || endpoint@.subrange(0, n as int).last() != '/');
    concat2(endpoint.substring_char(0, n), path)
}

/// The error for a response with a failing HTTP status: 401 and 403 refuse
/// the credentials, 429 is a rate limit, 5xx a server error, and any other
/// status is reported with its text (`status_text`, such as `404 Not
/// Found`).
pub fn status_error(code: u16, status_text: &str, error_text: String) -> (e: ProviderError)
    ensures
        (code == 401 || code == 403) ==> e == ProviderError::AuthenticationFailed(error_text),
        code == 429 ==> (e matches ProviderError::ApiError(m) && m@ == "Rate limited: "@ + error_text@),
        500 <= code <= 599 ==> (e matches ProviderError::ApiError(m) && m@ == "Server error: "@ + error_text@),
        !(code == 401 || code == 403 || code == 429 || (500 <= code <= 599)) ==> (e matches ProviderError::ApiError(m)
            && m@ == "API error ("@ + status_text@ + "): "@ + error_text@),
{
    if code == 401 || code == 403 {
        ProviderError::AuthenticationFailed(error_text)
    } else if code == 429 {
        ProviderError::ApiError(concat2("Rate limited: ", error_text.as_str()))
    } else if 500 <= code && code <= 599 {
        ProviderError::ApiError(concat2("Server error: ", error_text.as_str()))
    } else {
        let mut m = concat3("API error (", status_text, "): ");
        m.append(error_text.as_str());
        ProviderError::ApiError(m)
    }
}

/// The error for a request that got no response: a timeout, a failed
/// connection, or another failure, with the failure's message.
pub fn transport_error(is_timeout: bool, is_connect: bool, message: &str) -> (e: ProviderError)
    ensures
        is_timeout ==> (e matches ProviderError::Timeout(m) && m@ == "Request timeout: "@ + message@),
        !is_timeout && is_connect ==> (e matches ProviderError::ConnectionFailed(m) && m@ == "Connection failed: "@ + message@),
        !is_timeout && !is_connect ==> (e matches ProviderError::ApiError(m) && m@ == "Request failed: "@ + message@),
{
    if is_timeout {
        ProviderError::Timeout(concat2("Request timeout: ", message))
    } else if is_connect {
        ProviderError::ConnectionFailed(concat2("Connection failed: ", message))
    } else {
        ProviderError::ApiError(concat2("Request failed: ", message))
    }
}

/// The `Authorization` header of the custom adapter: a bearer token when
/// the provider has an API key.
pub fn bearer_header(api_key: &str) -> (h: Option<String>)
    ensures
        api_key@.len() == 0 ==> h is None,
        api_key@.len() > 0 ==> (h matches Some(v) && v@ == "Bearer "@ + api_key@),
{
    if api_key.unicode_len() == 0 {
        None
    } else {
        Some(concat2("Bearer ", api_key))
    }
}

} // verus!
