use velo_hub::models::{Provider, ProviderType, ProxyAuth, ProxyConfig, ProxyType};
use velo_hub::validation::{validate_endpoint_format, validate_model_name, validate_provider, validate_rate_limit_config};
use velo_hub::error::AppError;

fn provider(name: &str, endpoint: &str, api_key: &str) -> Provider {
    Provider {
        id: "test-id".to_string(),
        name: name.to_string(),
        provider_type: ProviderType::OpenAI,
        endpoint: endpoint.to_string(),
        api_key: api_key.to_string(),
        priority: 0,
        weight: 1,
        enabled: true,
        proxy: None,
        created_at: 0,
        updated_at: 0,
    }
}

#[test]
fn test_validate_provider_valid() {
    let p = provider("Test Provider", "https://api.openai.com/v1", "sk-1234567890");
    assert!(validate_provider(&p).is_ok());
}

#[test]
fn test_validate_provider_invalid_name() {
    let p = provider("", "https://api.openai.com/v1", "sk-1234567890");
    assert!(validate_provider(&p).is_err());
}

#[test]
fn test_validate_provider_invalid_endpoint() {
    let p = provider("Test Provider", "not-a-url", "sk-1234567890");
    assert!(validate_provider(&p).is_err());
}

#[test]
fn test_validate_provider_invalid_api_key() {
    let p = provider("Test Provider", "https://api.openai.com/v1", "short");
    assert!(validate_provider(&p).is_err());
}

#[test]
fn test_validate_provider_with_proxy() {
    let mut p = provider("Test Provider", "https://api.openai.com/v1", "sk-1234567890");
    p.proxy = Some(ProxyConfig {
        proxy_type: ProxyType::Http,
        url: "http://proxy.example.com:8080".to_string(),
        auth: Some(ProxyAuth { username: "user".to_string(), password: "pass".to_string() }),
    });
    assert!(validate_provider(&p).is_ok());
}

#[test]
fn test_validate_endpoint_format() {
    assert!(validate_endpoint_format("https://api.example.com").is_ok());
    assert!(validate_endpoint_format("http://localhost:8080").is_ok());
    assert!(validate_endpoint_format("ftp://example.com").is_err());
    assert!(validate_endpoint_format("not-a-url").is_err());
}

#[test]
fn test_validate_model_name() {
    assert!(validate_model_name("gpt-4").is_ok());
    assert!(validate_model_name("opus-3-large").is_ok());
    assert!(validate_model_name("").is_err());
    assert!(validate_model_name(&"a".repeat(201)).is_err());
}

#[test]
fn test_validate_rate_limit_config() {
    assert!(validate_rate_limit_config(Some(100), None, None, None, None).is_ok());
    assert!(validate_rate_limit_config(Some(0), None, None, None, None).is_err());
    assert!(validate_rate_limit_config(None, None, None, None, Some(0)).is_err());
    assert!(validate_rate_limit_config(None, None, None, None, Some(100)).is_ok());
}

fn message_of(r: Result<(), AppError>) -> String {
    match r {
        Err(AppError::InvalidInput(m)) => m,
        other => panic!("unexpected {:?}", other),
    }
}

#[test]
fn validation_messages_name_each_problem() {
    assert_eq!(message_of(validate_provider(&provider("", "https://a.b", "sk-1234567890"))),
        "Provider name must be between 1 and 100 characters");
    assert_eq!(message_of(validate_provider(&provider("x", "nope", "sk-1234567890"))), "Invalid endpoint URL format");
    assert_eq!(message_of(validate_provider(&provider("x", "https://a.b", "short"))), "API key must be at least 10 characters");
    let mut p = provider("x", "https://a.b", "sk-1234567890");
    p.priority = 101;
    assert_eq!(message_of(validate_provider(&p)), "Priority must be between -100 and 100");
    p.priority = -100;
    p.weight = 0;
    assert_eq!(message_of(validate_provider(&p)), "Weight must be between 1 and 1000");
    p.weight = 1000;
    assert!(validate_provider(&p).is_ok());
}

#[test]
fn validation_model_name_limit_is_inclusive() {
    assert!(validate_model_name(&"a".repeat(200)).is_ok());
    assert_eq!(message_of(validate_model_name("")), "Model name cannot be empty");
    assert_eq!(message_of(validate_model_name(&"a".repeat(201))), "Model name must not exceed 200 characters");
}

#[test]
fn validation_rate_limit_bounds() {
    assert_eq!(message_of(validate_rate_limit_config(Some(1_000_001), None, None, None, None)), "RPM must not exceed 1,000,000");
    assert!(validate_rate_limit_config(Some(1_000_000), None, None, None, None).is_ok());
    assert_eq!(message_of(validate_rate_limit_config(None, Some(0), None, None, None)), "Token quota must be greater than 0");
    assert_eq!(message_of(validate_rate_limit_config(None, None, None, None, Some(10_001))),
        "Max concurrent sessions must not exceed 10,000");
}

#[test]
fn validation_proxy_messages() {
    let mut p = provider("x", "https://a.b", "sk-1234567890");
    p.proxy = Some(ProxyConfig { proxy_type: ProxyType::Socks5, url: "ftp://proxy".to_string(), auth: None });
    assert_eq!(
        message_of(validate_provider(&p)),
        "Invalid proxy configuration: url: Validation error: Invalid proxy URL format [{}]"
    );
    p.proxy = Some(ProxyConfig {
        proxy_type: ProxyType::Http,
        url: "http://proxy:8080".to_string(),
        auth: Some(ProxyAuth { username: String::new(), password: String::new() }),
    });
    let m = message_of(validate_provider(&p));
    let user = "username: Validation error: Proxy username cannot be empty [{}]";
    let pass = "password: Validation error: Proxy password cannot be empty [{}]";
    // The fields sit in a hash map, so their lines come in either order.
    assert!(
        m == format!("Invalid proxy configuration: {}\n{}", user, pass)
            || m == format!("Invalid proxy configuration: {}\n{}", pass, user),
        "{}",
        m
    );
}
