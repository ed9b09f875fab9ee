use reliquaint::user_config::{check_schema, load_or_default, ConfigError, UserConfig};

#[test]
fn missing_file_returns_default() {
    let missing = Err(ConfigError::Read { path: "/nope/config.toml".into(), message: "not found".into() });
    assert_eq!(load_or_default(missing), UserConfig::default());
}

#[test]
fn empty_config_with_only_schema_version_equals_default() {
    let parsed = check_schema(UserConfig::default(), "config.toml").unwrap();
    assert_eq!(parsed, UserConfig::default());
}

#[test]
fn user_config_rejects_unsupported_schema_version() {
    let mut c = UserConfig::default();
    c.schema_version = 2;
    let err = check_schema(c, "config.toml").unwrap_err();
    assert!(matches!(err, ConfigError::UnsupportedSchema { version: 2, .. }));
    assert_eq!(err.message(), "unsupported schema_version 2 in config.toml (expected 1)");
}

#[test]
fn load_or_default_falls_back_on_parse_failure() {
    let broken = Err(ConfigError::Parse { path: "config.toml".into(), message: "bad".into() });
    assert_eq!(load_or_default(broken), UserConfig::default());
}

#[test]
fn load_or_default_keeps_a_loaded_config() {
    let mut c = UserConfig::default();
    c.emulators.fs_uae.window_scale = 2;
    assert_eq!(load_or_default(Ok(c.clone())), c);
}
