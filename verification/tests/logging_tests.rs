use velo_hub::logging::{validate_log_level, LogConfig, LogLevel};

#[test]
fn test_log_level_conversion() {
    assert_eq!(LogLevel::Info.as_str(), "info");
    assert_eq!(LogLevel::Debug.as_str(), "debug");

    let level: LogLevel = "info".parse().unwrap();
    assert_eq!(level, LogLevel::Info);
}

#[test]
fn log_level_parse_ignores_case_and_refuses_others() {
    let level: LogLevel = "WARN".parse().unwrap();
    assert_eq!(level, LogLevel::Warn);
    let bad: Result<LogLevel, String> = "verbose".parse();
    assert_eq!(bad.unwrap_err(), "Invalid log level: verbose");
}

#[test]
fn log_level_maps_to_tracing() {
    assert_eq!(LogLevel::Error.as_tracing_level(), tracing::Level::ERROR);
    assert_eq!(LogLevel::Trace.as_tracing_level(), tracing::Level::TRACE);
}

#[test]
fn log_level_update_validation() {
    assert!(validate_log_level("Debug").is_ok());
    assert_eq!(validate_log_level("loud").unwrap_err(),
        "Invalid log level: loud. Must be one of: trace, debug, info, warn, error");
}

#[test]
fn log_config_default_directory() {
    let c = LogConfig::default_in(Some("/data".to_string()));
    assert_eq!(c.log_dir, "/data/velo-hub/logs");
    assert_eq!(c.level, "info");
    let d = LogConfig::default_in(None);
    assert_eq!(d.log_dir, "./velo-hub/logs");
    let e = LogConfig::default_in(Some("/data/".to_string()));
    assert_eq!(e.log_dir, "/data/velo-hub/logs");
}
