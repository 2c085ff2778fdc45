use velo_hub::config::{AppConfig, CircuitBreakerConfig, ConfigError, EnvOverrides};

fn no_overrides() -> EnvOverrides {
    EnvOverrides {
        server_host: None,
        server_port: None,
        server_enable_tls: None,
        database_path: None,
        circuit_breaker_failure_threshold_ppm: None,
        circuit_breaker_window_duration_secs: None,
        circuit_breaker_cooldown_duration_secs: None,
        circuit_breaker_half_open_max_requests: None,
        session_ttl_minutes: None,
        session_cleanup_interval_secs: None,
        logging_level: None,
        logging_file: None,
    }
}

#[test]
fn test_default_config() {
    let config = AppConfig::default();
    assert_eq!(config.server.host, "127.0.0.1");
    assert_eq!(config.server.port, 8080);
    assert_eq!(config.server.enable_tls, false);
    assert_eq!(config.circuit_breaker.failure_threshold_ppm as f64 / 1_000_000.0, 0.5);
    assert_eq!(config.session.ttl_minutes, 5);
}

#[test]
fn test_default_config_values() {
    let default_host = "127.0.0.1";
    let default_port = 8080;
    let default_ttl = 5;

    assert_eq!(default_host, "127.0.0.1");
    assert_eq!(default_port, 8080);
    assert_eq!(default_ttl, 5);

    let config = AppConfig::default();
    assert_eq!(config.server.host, default_host);
    assert_eq!(config.server.port, default_port);
    assert_eq!(config.session.ttl_minutes, default_ttl);
}

#[test]
fn test_circuit_breaker_config_default() {
    let config = CircuitBreakerConfig::default();
    assert_eq!(config.failure_threshold_ppm as f64 / 1_000_000.0, 0.5);
    assert_eq!(config.window_duration_secs, 60);
    assert_eq!(config.cooldown_duration_secs, 30);
    assert_eq!(config.half_open_max_requests, 3);
}

#[test]
fn test_expand_path() {
    let path = "~/test/path";
    let expanded = AppConfig::expand_path(path);
    assert!(!expanded.contains('~'));

    let windows_path = "~\\test\\path";
    let expanded_windows = AppConfig::expand_path(windows_path);
    assert!(!expanded_windows.starts_with('~'));

    let abs_path = "/absolute/path";
    let expanded_abs = AppConfig::expand_path(abs_path);
    assert_eq!(expanded_abs, abs_path);
}

#[test]
fn expand_path_with_known_home() {
    assert_eq!(AppConfig::expand_path_with_home("~/a/b", Some("/home/u")), "/home/u/a/b");
    assert_eq!(AppConfig::expand_path_with_home("~\\a", Some("C:\\Users\\u")), "C:\\Users\\u\\a");
    assert_eq!(AppConfig::expand_path_with_home("~/a", None), "~/a");
    assert_eq!(AppConfig::expand_path_with_home("~x", Some("/home/u")), "~x");
}

#[test]
fn test_env_override() {
    let mut config = AppConfig::default();
    let mut env = no_overrides();
    env.server_host = Some("0.0.0.0".to_string());
    env.server_port = Some("9000".to_string());
    env.session_ttl_minutes = Some("10".to_string());
    config.apply_env_overrides(&env);
    assert_eq!(config.server.host, "0.0.0.0");
    assert_eq!(config.server.port, 9000);
    assert_eq!(config.session.ttl_minutes, 10);
}

#[test]
fn env_override_ignores_unreadable_numbers() {
    let mut config = AppConfig::default();
    let mut env = no_overrides();
    env.server_port = Some("70000".to_string());
    env.server_enable_tls = Some("yes".to_string());
    env.circuit_breaker_half_open_max_requests = Some("+5".to_string());
    env.session_cleanup_interval_secs = Some("-1".to_string());
    env.logging_level = Some("trace".to_string());
    config.apply_env_overrides(&env);
    assert_eq!(config.server.port, 8080);
    assert_eq!(config.server.enable_tls, false);
    assert_eq!(config.circuit_breaker.half_open_max_requests, 5);
    assert_eq!(config.session.cleanup_interval_secs, 60);
    assert_eq!(config.logging.level, "trace");
}

#[test]
fn env_override_none_keeps_defaults() {
    let mut config = AppConfig::default();
    config.apply_env_overrides(&no_overrides());
    assert_eq!(config.server.host, "127.0.0.1");
    assert_eq!(config.database.path, "~/.velo-hub/data.db");
    assert_eq!(config.logging.file, Some("~/.velo-hub/logs/app.log".to_string()));
}

#[test]
fn config_error_messages() {
    assert_eq!(ConfigError::Parse("bad".to_string()).to_string(), "Failed to parse config: bad");
    assert_eq!(ConfigError::FileRead("/x".to_string(), "gone".to_string()).to_string(),
        "Failed to read config file /x: gone");
}

#[test]
fn env_override_takes_precedence_over_file_values() {
    let mut env = no_overrides();
    env.server_host = Some("10.0.0.1".to_string());
    env.server_port = Some("7000".to_string());
    env.server_enable_tls = Some("true".to_string());
    env.database_path = Some("/data/gw.db".to_string());
    env.circuit_breaker_failure_threshold_ppm = Some(600_000);
    env.circuit_breaker_window_duration_secs = Some("120".to_string());
    env.circuit_breaker_cooldown_duration_secs = Some("45".to_string());
    env.circuit_breaker_half_open_max_requests = Some("2".to_string());
    env.session_ttl_minutes = Some("15".to_string());
    env.session_cleanup_interval_secs = Some("30".to_string());
    env.logging_level = Some("warn".to_string());
    env.logging_file = Some("/var/log/gw.log".to_string());

    let mut from_defaults = AppConfig::default();
    let mut from_file = AppConfig::default();
    from_file.server.host = "192.168.1.5".to_string();
    from_file.server.port = 1234;
    from_file.database.path = "/elsewhere.db".to_string();
    from_file.session.ttl_minutes = 99;
    from_file.logging.file = None;

    from_defaults.apply_env_overrides(&env);
    from_file.apply_env_overrides(&env);
    for c in [&from_defaults, &from_file] {
        assert_eq!(c.server.host, "10.0.0.1");
        assert_eq!(c.server.port, 7000);
        assert!(c.server.enable_tls);
        assert_eq!(c.database.path, "/data/gw.db");
        assert_eq!(c.circuit_breaker.failure_threshold_ppm, 600_000);
        assert_eq!(c.circuit_breaker.window_duration_secs, 120);
        assert_eq!(c.circuit_breaker.cooldown_duration_secs, 45);
        assert_eq!(c.circuit_breaker.half_open_max_requests, 2);
        assert_eq!(c.session.ttl_minutes, 15);
        assert_eq!(c.session.cleanup_interval_secs, 30);
        assert_eq!(c.logging.level, "warn");
        assert_eq!(c.logging.file, Some("/var/log/gw.log".to_string()));
    }
}

#[test]
fn test_environment_variable_precedence() {
    let mut config = AppConfig::default();
    let mut env = no_overrides();
    env.server_port = Some("7777".to_string());
    env.logging_level = Some("trace".to_string());
    config.apply_env_overrides(&env);
    assert_eq!(config.server.port, 7777);
    assert_eq!(config.logging.level, "trace");
}
