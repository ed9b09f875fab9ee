use reliquaint::install_record::{check_record, missing_expects_files, Install, InstallError, InstallRecord};

fn record(schema_version: u32, install_path: &str) -> InstallRecord {
    InstallRecord {
        schema_version,
        install: Install {
            catalog_id: "qfg1-ega".into(),
            tap: "reliquaint-core".into(),
            install_path: install_path.into(),
            installed_at: "2026-05-23T14:32:00Z".into(),
        },
    }
}

#[test]
fn parses_schema_example_verbatim() {
    let record = check_record(record(1, "/home/derek/games/qfg1-ega"), "test.toml").unwrap();
    assert_eq!(record.install.catalog_id, "qfg1-ega");
    assert_eq!(record.install.tap, "reliquaint-core");
    assert_eq!(record.install.install_path, "/home/derek/games/qfg1-ega");
    assert_eq!(record.install.installed_at, "2026-05-23T14:32:00Z");
}

#[test]
fn tilde_in_install_path_is_expanded_on_read() {
    let record = check_record(record(1, "~/games/qfg1-ega"), "test.toml").unwrap();
    let s = record.install.install_path;
    assert!(!s.starts_with('~'), "tilde should be expanded, got {s}");
    assert!(s.ends_with("/games/qfg1-ega"), "expanded path should retain tail, got {s}");
}

#[test]
fn rejects_relative_install_path() {
    let err = check_record(record(1, "games/qfg1-ega"), "test.toml").unwrap_err();
    assert!(
        matches!(err, InstallError::NonAbsoluteInstallPath { .. }),
        "relative install_path should be rejected, got {err:?}"
    );
}

#[test]
fn install_record_rejects_unsupported_schema_version() {
    let err = check_record(record(2, "/x"), "test.toml").unwrap_err();
    assert!(matches!(err, InstallError::UnsupportedSchema { version: 2, .. }));
}

#[test]
fn missing_expects_files_is_case_insensitive() {
    let missing = missing_expects_files(&vec!["sierra.bat".to_string()], &vec!["SIERRA.BAT".to_string()]);
    assert!(missing.is_empty(), "should match case-insensitively");
}

#[test]
fn missing_expects_files_keeps_order_of_the_absent_ones() {
    let listed = vec!["RESOURCE.000".to_string()];
    let expected = vec!["SIERRA.EXE".to_string(), "resource.000".to_string(), "VOCAB.SCI".to_string()];
    assert_eq!(missing_expects_files(&listed, &expected), vec!["SIERRA.EXE", "VOCAB.SCI"]);
}
