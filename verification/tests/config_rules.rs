use obsidian_mcp_server::config::{Config, ConfigError, LoggingConfig, Settings};

#[test]
fn log_levels_are_checked_case_insensitively() {
    let mut logging = LoggingConfig::default();
    assert!(logging.validate().is_ok());
    logging.level = "WARN".to_string();
    assert!(logging.validate().is_ok());
    logging.level = "Trace".to_string();
    assert!(logging.validate().is_ok());
    logging.level = "loud".to_string();
    match logging.validate() {
        Err(ConfigError::InvalidValue(m)) => {
            assert_eq!(
                m,
                "Invalid log level: loud. Must be one of: trace, debug, info, warn, error"
            );
        }
        _ => panic!("an unknown level must be refused"),
    }
}

#[test]
fn config_checks_the_vault_and_the_size_bound() {
    let config = Config::default();
    assert_eq!(config.vault_path, "./vault");
    assert_eq!(config.max_file_size, 1024 * 1024);
    assert!(config.validate(true).is_ok());
    assert!(config.validate(false).is_err());

    let mut small = Config::default();
    small.max_file_size = 0;
    match small.validate(true) {
        Err(ConfigError::InvalidValue(m)) => {
            assert_eq!(m, "max_file_size must be greater than zero");
        }
        _ => panic!("a zero bound must be refused"),
    }
}

#[test]
fn settings_accept_an_absent_vault_and_refuse_a_file_vault() {
    let mut settings = Settings::default();
    assert!(settings.get_vault_path().is_none());
    assert!(settings.validate(false, false).is_ok());

    settings.set_vault_path("/somewhere".to_string());
    assert_eq!(settings.get_vault_path(), Some("/somewhere"));
    // A configured path that is absent on disk only warns; it passes.
    assert!(settings.validate(false, false).is_ok());
    // A configured path that is present but no directory is refused.
    assert!(settings.validate(true, false).is_err());
    assert!(settings.validate(true, true).is_ok());

    settings.logging.level = "nope".to_string();
    assert!(settings.validate(true, true).is_err());
}
