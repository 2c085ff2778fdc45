use velo_hub::models::{Provider, ProviderType};
use velo_hub::provider::{validate_anthropic_config, validate_custom_config};

fn provider(provider_type: ProviderType, endpoint: &str, api_key: &str) -> Provider {
    Provider {
        id: "test".to_string(),
        name: "Test Provider".to_string(),
        provider_type,
        endpoint: endpoint.to_string(),
        api_key: api_key.to_string(),
        priority: 0,
        weight: 1,
        enabled: true,
        proxy: None,
        created_at: 0,
        updated_at: 0,
    }
}

#[test]
fn anthropic_test_validate_config_success() {
    let p = provider(ProviderType::Anthropic, "https://api.anthropic.com/v1", "sk-ant-test123");
    assert!(validate_anthropic_config(&p).is_ok());
}

#[test]
fn custom_test_validate_config_success() {
    let p = provider(ProviderType::Custom, "https://custom-api.example.com/v1", "");
    assert!(validate_custom_config(&p).is_ok());
}

#[test]
fn test_validate_config_with_api_key() {
    let p = provider(ProviderType::Custom, "https://custom-api.example.com/v1", "custom-key-123");
    assert!(validate_custom_config(&p).is_ok());
}

#[test]
fn test_validate_config_empty_endpoint() {
    let p = provider(ProviderType::Custom, "", "");
    assert!(validate_custom_config(&p).is_err());
}

#[test]
fn anthropic_config_needs_key_and_http_endpoint() {
    let no_key = provider(ProviderType::Anthropic, "https://api.anthropic.com/v1", "");
    assert_eq!(
        validate_anthropic_config(&no_key).unwrap_err().to_string(),
        "Provider error: Invalid provider configuration: API key cannot be empty"
    );
    let ftp = provider(ProviderType::Anthropic, "ftp://api.anthropic.com", "k");
    assert!(validate_anthropic_config(&ftp).is_err());
    let ftp_custom = provider(ProviderType::Custom, "ftp://example.com", "");
    assert!(validate_custom_config(&ftp_custom).is_err());
}
