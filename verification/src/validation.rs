//! Validation of provider configurations and of request parameters.
use vstd::prelude::*;
use crate::error::AppError;
use crate::models::{Provider, ProviderType, ProxyConfig};
use crate::text::{has_prefix, str_starts_with, concat2, byte_len};

verus! {

/// Input of a provider creation, with the constraints that `validate` checks.
#[derive(Debug, Clone)]
pub struct CreateProviderRequest {
    pub name: String,
    pub provider_type: ProviderType,
    pub endpoint: String,
    pub api_key: String,
    pub priority: i32,
    pub weight: i32,
    pub enabled: bool,
    pub proxy: Option<ProxyConfig>,
}

/// Input of a provider update: every field optional.
#[derive(Debug, Clone)]
pub struct UpdateProviderRequest {
    pub name: Option<String>,
    pub provider_type: Option<ProviderType>,
    pub endpoint: Option<String>,
    pub api_key: Option<String>,
    pub priority: Option<i32>,
    pub weight: Option<i32>,
    pub enabled: Option<bool>,
    pub proxy: Option<ProxyConfig>,
}

/// A failed check of one field: the field and the error code.
#[derive(Debug, Clone)]
pub struct FieldError {
    pub field: String,
    pub code: String,
}

/// A URL whose scheme the gateway supports: `http://`, `https://` or `socks5://`.
pub open spec fn valid_url(s: Seq<char>) -> bool {
    has_prefix(s, "http://"@) || has_prefix(s, "https://"@) || has_prefix(s, "socks5://"@)
}

/// Whether the URL starts with a supported scheme.
pub fn is_valid_url(url: &str) -> (b: bool)
    ensures
        b == valid_url(url@),
{
    str_starts_with(url, "http://") || str_starts_with(url, "https://") || str_starts_with(url, "socks5://")
}

/// The failed checks of a proxy configuration, in the order `url`, `username`,
/// `password`: the URL must have a supported scheme, and credentials, if given,
/// must not be empty.
pub open spec fn proxy_errors(c: ProxyConfig) -> Seq<(Seq<char>, Seq<char>)> {
    let e1: Seq<(Seq<char>, Seq<char>)> =
        if valid_url(c.url@) { Seq::empty() } else { seq![("url"@, "Invalid proxy URL format"@)] };
    let e2 = match c.auth {
        Some(a) => if a.username@.len() == 0 { e1.push(("username"@, "Proxy username cannot be empty"@)) } else { e1 },
        None => e1,
    };
    match c.auth {
        Some(a) => if a.password@.len() == 0 { e2.push(("password"@, "Proxy password cannot be empty"@)) } else { e2 },
        None => e2,
    }
}

/// The field errors as plain pairs.
pub open spec fn field_errors_view(v: Seq<FieldError>) -> Seq<(Seq<char>, Seq<char>)> {
    v.map_values(|e: FieldError| (e.field@, e.code@))
}

/// Checks a proxy configuration: `Ok` exactly when no check fails, else the
/// failed checks in order.
pub fn validate_proxy_config(c: &ProxyConfig) -> (r: Result<(), Vec<FieldError>>)
    ensures
        r is Ok <==> proxy_errors(*c).len() == 0,
        r matches Err(v) ==> field_errors_view(v@) == proxy_errors(*c),
{
    let mut errs: Vec<FieldError> = Vec::new();
    if !is_valid_url(&c.url) {
        errs.push(FieldError { field: String::from_str("url"), code: String::from_str("Invalid proxy URL format") });
    }
    assert(field_errors_view(errs@) =~= (if valid_url(c.url@) { Seq::empty() } else { seq![("url"@, "Invalid proxy URL format"@)] }));
    if let Some(auth) = &c.auth {
        if auth.username.as_str().is_empty() {
            errs.push(FieldError { field: String::from_str("username"), code: String::from_str("Proxy username cannot be empty") });
        }
        assert(field_errors_view(errs@) =~= (if auth.username@.len() == 0 {
            (if valid_url(c.url@) { Seq::empty() } else { seq![("url"@, "Invalid proxy URL format"@)] }).push(("username"@, "Proxy username cannot be empty"@))
        } else {
            (if valid_url(c.url@) { Seq::empty() } else { seq![("url"@, "Invalid proxy URL format"@)] })
        }));
        if auth.password.as_str().is_empty() {
            errs.push(FieldError { field: String::from_str("password"), code: String::from_str("Proxy password cannot be empty") });
        }
    }
    assert(field_errors_view(errs@) =~= proxy_errors(*c));
    if errs.len() == 0 {
        Ok(())
    } else {
        Err(errs)
    }
}

/// How a list of field errors is displayed: one line per field,
/// `field: Validation error: code [{}]`, the lines separated by a newline.
pub open spec fn render_field_errors(v: Seq<(Seq<char>, Seq<char>)>) -> Seq<char>
    decreases v.len(),
{
    if v.len() == 0 {
        Seq::empty()
    } else {
        let line = v.last().0 + ": Validation error: "@ + v.last().1 + " [{}]"@;
        if v.len() == 1 { line } else { render_field_errors(v.drop_last()) + "\n"@ + line }
    }
}

/// No two of the errors name the same field.
pub open spec fn fields_distinct(v: Seq<(Seq<char>, Seq<char>)>) -> bool {
    forall|i: int, j: int| 0 <= i < j < v.len() ==> #[trigger] v[i].0 != #[trigger] v[j].0
}

/// The errors of `q` are those of `v`, in some order.
pub open spec fn same_errors(q: Seq<(Seq<char>, Seq<char>)>, v: Seq<(Seq<char>, Seq<char>)>) -> bool {
    q.to_multiset() == v.to_multiset()
}

/// `text` renders the errors of `v`, in some order.
pub open spec fn renders_in_some_order(text: Seq<char>, v: Seq<(Seq<char>, Seq<char>)>) -> bool {
    exists|q: Seq<(Seq<char>, Seq<char>)>| same_errors(q, v) && text == #[trigger] render_field_errors(q)
}

/// The display of `validator::ValidationErrors` holding one error per field
/// (`ValidationErrors::add` with `ValidationError::new(code)`, then its
/// `Display`). The errors sit in a `HashMap` whose walk order is not fixed,
/// so the contract says only that the text renders the errors, each field
/// once, in some order (`render_field_errors`: `field: Validation error:
/// code [{}]`, the empty parameter map in debug form, one line per field).
/// The `&'static str` that `validator` takes are made by leaking copies.
#[verifier::external_body]
fn validation_errors_text(errs: &Vec<FieldError>) -> (s: String)
    requires
        fields_distinct(field_errors_view(errs@)),
    ensures
        renders_in_some_order(s@, field_errors_view(errs@)),
{
    let mut all = validator::ValidationErrors::new();
    for e in errs.iter() {
        let field: &'static str = Box::leak(e.field.clone().into_boxed_str());
        let code: &'static str = Box::leak(e.code.clone().into_boxed_str());
        all.add(field, validator::ValidationError::new(code));
    }
    all.to_string()
}

/// The failed checks of a proxy name three different fields.
proof fn lemma_proxy_fields_distinct(c: ProxyConfig)
    ensures
        fields_distinct(proxy_errors(c)),
{
    reveal_strlit("url");
    reveal_strlit("username");
    reveal_strlit("password");
    let v = proxy_errors(c);
    let names = seq!["url"@, "username"@, "password"@];
    assert(names[0].len() != names[1].len());
    assert(names[0].len() != names[2].len());
    assert(names[1][0] != names[2][0]);
    // Each failed check is one of the three, and they come in that order.
    assert(exists|k: Seq<int>| #![trigger k.len()] k.len() == v.len()
        && (forall|i: int| 0 <= i < v.len() ==> 0 <= #[trigger] k[i] < 3 && v[i].0 == names[k[i]])
        && (forall|i: int, j: int| 0 <= i < j < v.len() ==> #[trigger] k[i] < #[trigger] k[j])) by {
        let e1: Seq<int> = if valid_url(c.url@) { Seq::empty() } else { seq![0int] };
        let e2: Seq<int> = match c.auth {
            Some(a) => if a.username@.len() == 0 { e1.push(1int) } else { e1 },
            None => e1,
        };
        let e3: Seq<int> = match c.auth {
            Some(a) => if a.password@.len() == 0 { e2.push(2int) } else { e2 },
            None => e2,
        };
        assert(e3.len() == v.len());
    }
    let k = choose|k: Seq<int>| #![trigger k.len()] k.len() == v.len()
        && (forall|i: int| 0 <= i < v.len() ==> 0 <= #[trigger] k[i] < 3 && v[i].0 == names[k[i]])
        && (forall|i: int, j: int| 0 <= i < j < v.len() ==> #[trigger] k[i] < #[trigger] k[j]);
    assert forall|i: int, j: int| 0 <= i < j < v.len() implies #[trigger] v[i].0 != #[trigger] v[j].0 by {
        let ki = k[i];
        let kj = k[j];
        assert(ki < kj);
        if v[i].0 == v[j].0 {
            assert(names[ki] == names[kj]);
            if ki == 0 {
                assert(names[0].len() == names[kj].len());
            } else {
                assert(names[1][0] == names[2][0]);
            }
        }
    }
}

/// The reason a provider is invalid before its proxy is looked at, checked in
/// this order: name of 1 to 100 bytes, endpoint URL with a supported scheme,
/// API key of at least 10 bytes, priority in [-100, 100], weight in [1, 1000].
pub open spec fn basic_problem(p: Provider) -> Option<Seq<char>> {
    if p.name@.len() == 0 || byte_len(p.name@) > 100 {
        Some("Provider name must be between 1 and 100 characters"@)
    } else if !valid_url(p.endpoint@) {
        Some("Invalid endpoint URL format"@)
    } else if byte_len(p.api_key@) < 10 {
        Some("API key must be at least 10 characters"@)
    } else if p.priority < -100 || p.priority > 100 {
        Some("Priority must be between -100 and 100"@)
    } else if p.weight < 1 || p.weight > 1000 {
        Some("Weight must be between 1 and 1000"@)
    } else {
        None
    }
}

/// A provider passes every check: the basic ones, and its proxy's if it has one.
pub open spec fn provider_valid(p: Provider) -> bool {
    &&& basic_problem(p) is None
    &&& p.proxy matches Some(c) ==> proxy_errors(c).len() == 0
}

/// `m` is the message that refuses `p`: that of the first basic check that
/// fails, else `Invalid proxy configuration: ` and the proxy's failed checks,
/// rendered in some order.
pub open spec fn problem_message(p: Provider, m: Seq<char>) -> bool {
    match basic_problem(p) {
        Some(msg) => m == msg,
        None => match p.proxy {
            Some(c) => exists|q: Seq<(Seq<char>, Seq<char>)>| same_errors(q, proxy_errors(c))
                && m == "Invalid proxy configuration: "@ + #[trigger] render_field_errors(q),
            None => false,
        },
    }
}

/// Validates a provider configuration: `Ok` exactly when it passes every
/// check, else `InvalidInput` with the message of `problem_message`.
pub fn validate_provider(provider: &Provider) -> (r: Result<(), AppError>)
    ensures
        r is Ok <==> provider_valid(*provider),
        r matches Err(e) ==> (e matches AppError::InvalidInput(m) && problem_message(*provider, m@)),
{
    if provider.name.as_str().is_empty() || provider.name.as_str().len() > 100 {
        return Err(AppError::InvalidInput(String::from_str("Provider name must be between 1 and 100 characters")));
    }
    if !is_valid_url(provider.endpoint.as_str()) {
        return Err(AppError::InvalidInput(String::from_str("Invalid endpoint URL format")));
    }
    if provider.api_key.as_str().len() < 10 {
        return Err(AppError::InvalidInput(String::from_str("API key must be at least 10 characters")));
    }
    if provider.priority < -100 || provider.priority > 100 {
        return Err(AppError::InvalidInput(String::from_str("Priority must be between -100 and 100")));
    }
    if provider.weight < 1 || provider.weight > 1000 {
        return Err(AppError::InvalidInput(String::from_str("Weight must be between 1 and 1000")));
    }
    if let Some(proxy) = &provider.proxy {
        match validate_proxy_config(proxy) {
            Ok(()) => {},
            Err(errs) => {
                proof {
                    lemma_proxy_fields_distinct(*proxy);
                }
                let rendered = validation_errors_text(&errs);
                return Err(AppError::InvalidInput(concat2("Invalid proxy configuration: ", rendered.as_str())));
            },
        }
    }
    Ok(())
}

/// The endpoint must use HTTP or HTTPS.
pub fn validate_endpoint_format(endpoint: &str) -> (r: Result<(), AppError>)
    ensures
        (has_prefix(endpoint@, "http://"@) || has_prefix(endpoint@, "https://"@)) ==> r is Ok,
        !(has_prefix(endpoint@, "http://"@) || has_prefix(endpoint@, "https://"@)) ==>
            (r matches Err(AppError::InvalidInput(m)) && m@ == "Endpoint must use HTTP or HTTPS protocol"@),
{
    if !str_starts_with(endpoint, "http://") && !str_starts_with(endpoint, "https://") {
        return Err(AppError::InvalidInput(String::from_str("Endpoint must use HTTP or HTTPS protocol")));
    }
    Ok(())
}

/// A model name must not be empty and must not exceed 200 bytes.
pub fn validate_model_name(model: &str) -> (r: Result<(), AppError>)
    ensures
        model@.len() == 0 ==> (r matches Err(AppError::InvalidInput(m)) && m@ == "Model name cannot be empty"@),
        model@.len() != 0 && byte_len(model@) > 200 ==>
            (r matches Err(AppError::InvalidInput(m)) && m@ == "Model name must not exceed 200 characters"@),
        model@.len() != 0 && byte_len(model@) <= 200 ==> r is Ok,
{
    if model.is_empty() {
        return Err(AppError::InvalidInput(String::from_str("Model name cannot be empty")));
    }
    if model.len() > 200 {
        return Err(AppError::InvalidInput(String::from_str("Model name must not exceed 200 characters")));
    }
    Ok(())
}

/// The reason a rate-limit configuration is invalid, checked in this order:
/// RPM in [1, 1_000_000], token quotas (5 h, week, month) positive, maximum
/// concurrent sessions in [1, 10_000]. Absent limits are not checked.
pub open spec fn rate_limit_problem(
    rpm: Option<u32>,
    tokens_per_5h: Option<u64>,
    tokens_per_week: Option<u64>,
    tokens_per_month: Option<u64>,
    max_concurrent_sessions: Option<u32>,
) -> Option<Seq<char>> {
    if rpm == Some(0u32) {
        Some("RPM must be greater than 0"@)
    } else if rpm matches Some(r) && r > 1_000_000 {
        Some("RPM must not exceed 1,000,000"@)
    } else if tokens_per_5h == Some(0u64) || tokens_per_week == Some(0u64) || tokens_per_month == Some(0u64) {
        Some("Token quota must be greater than 0"@)
    } else if max_concurrent_sessions == Some(0u32) {
        Some("Max concurrent sessions must be greater than 0"@)
    } else if max_concurrent_sessions matches Some(s) && s > 10_000 {
        Some("Max concurrent sessions must not exceed 10,000"@)
    } else {
        None
    }
}

/// Validates a rate-limit configuration: `Ok` exactly when `rate_limit_problem`
/// finds nothing, else `InvalidInput` with its message.
pub fn validate_rate_limit_config(
    rpm: Option<u32>,
    tokens_per_5h: Option<u64>,
    tokens_per_week: Option<u64>,
    tokens_per_month: Option<u64>,
    max_concurrent_sessions: Option<u32>,
) -> (r: Result<(), AppError>)
    ensures
        match rate_limit_problem(rpm, tokens_per_5h, tokens_per_week, tokens_per_month, max_concurrent_sessions) {
            None => r is Ok,
            Some(msg) => r matches Err(AppError::InvalidInput(m)) && m@ == msg,
        },
{
    if let Some(rpm) = rpm {
        if rpm == 0 {
            return Err(AppError::InvalidInput(String::from_str("RPM must be greater than 0")));
        }
        if rpm > 1_000_000 {
            return Err(AppError::InvalidInput(String::from_str("RPM must not exceed 1,000,000")));
        }
    }
    if let Some(tokens) = tokens_per_5h {
        if tokens == 0 {
            return Err(AppError::InvalidInput(String::from_str("Token quota must be greater than 0")));
        }
    }
    if let Some(tokens) = tokens_per_week {
        if tokens == 0 {
            return Err(AppError::InvalidInput(String::from_str("Token quota must be greater than 0")));
        }
    }
    if let Some(tokens) = tokens_per_month {
        if tokens == 0 {
            return Err(AppError::InvalidInput(String::from_str("Token quota must be greater than 0")));
        }
    }
    if let Some(sessions) = max_concurrent_sessions {
        if sessions == 0 {
            return Err(AppError::InvalidInput(String::from_str("Max concurrent sessions must be greater than 0")));
        }
        if sessions > 10_000 {
            return Err(AppError::InvalidInput(String::from_str("Max concurrent sessions must not exceed 10,000")));
        }
    }
    Ok(())
}

} // verus!
