use reliquaint::manifest::{parse_file, parse_str, validate, Manifest, ManifestError, Platform, Runtime};

fn manifest(platform: Platform, config: Option<&str>, sidecars: &[&str]) -> Manifest {
    Manifest {
        id: "g".into(),
        title: "G".into(),
        platform,
        collection: "c".into(),
        runtime: Runtime {
            emulator: "e".into(),
            config: config.map(|s| s.to_string()),
            sidecars: sidecars.iter().map(|s| s.to_string()).collect(),
            file: None,
            model: None,
        },
    }
}

#[test]
fn dos_missing_config_is_refused() {
    assert!(matches!(validate(&manifest(Platform::Dos, None, &[])), Err(ManifestError::DosConfigMissing)));
    assert!(validate(&manifest(Platform::Dos, Some("x.conf"), &["fluidsynth"])).is_ok());
}

#[test]
fn amiga_sidecars_forbidden() {
    assert!(matches!(validate(&manifest(Platform::Amiga, None, &["fluidsynth"])), Err(ManifestError::AmigaSidecarsForbidden)));
    assert!(validate(&manifest(Platform::Amiga, None, &[])).is_ok());
}

#[test]
fn parse_errors_carry_the_path() {
    match parse_str(Err("unknown field `bogus`".into())) {
        Err(e @ ManifestError::Parse { .. }) => assert_eq!(e.message(), "TOML parse error in <string>: unknown field `bogus`"),
        _ => panic!("expected a parse error"),
    }
    assert!(matches!(parse_file("/m.toml", Ok(manifest(Platform::Dos, None, &[]))), Err(ManifestError::DosConfigMissing)));
    assert_eq!(ManifestError::AmigaSidecarsForbidden.message(), "Amiga manifest must not declare sidecars");
}

/// The manifest a TOML file with these fields deserializes to.
fn parsed(id: &str, platform: Platform, emulator: &str, config: Option<&str>, sidecars: &[&str], file: Option<&str>, model: Option<&str>) -> Manifest {
    Manifest {
        id: id.into(),
        title: id.to_uppercase(),
        platform,
        collection: "c".into(),
        runtime: Runtime {
            emulator: emulator.into(),
            config: config.map(|s| s.to_string()),
            sidecars: sidecars.iter().map(|s| s.to_string()).collect(),
            file: file.map(|s| s.to_string()),
            model: model.map(|s| s.to_string()),
        },
    }
}

#[test]
fn dos_manifest_parses() {
    let m = parse_str(Ok(parsed("qfg1-ega", Platform::Dos, "dosbox-staging", Some("../config/qfg1-ega.conf"), &["fluidsynth"], None, None))).unwrap();
    assert_eq!(m.id, "qfg1-ega");
    assert_eq!(m.platform, Platform::Dos);
    assert_eq!(m.runtime.config.as_deref(), Some("../config/qfg1-ega.conf"));
    assert_eq!(m.runtime.sidecars, vec!["fluidsynth"]);
}

#[test]
fn amiga_manifest_parses() {
    let m = parse_str(Ok(parsed("lemmings", Platform::Amiga, "fs-uae", None, &[], Some("../games/lemmings.adf"), Some("a500")))).unwrap();
    assert_eq!(m.id, "lemmings");
    assert_eq!(m.platform, Platform::Amiga);
    assert_eq!(m.runtime.file.as_deref(), Some("../games/lemmings.adf"));
    assert_eq!(m.runtime.model.as_deref(), Some("a500"));
    assert!(m.runtime.sidecars.is_empty());
}

#[test]
fn sidecars_defaults_to_empty() {
    let m = parse_str(Ok(parsed("kq1sci", Platform::Dos, "dosbox-staging", Some("../config/kq1sci.conf"), &[], None, None))).unwrap();
    assert!(m.runtime.sidecars.is_empty());
}

#[test]
fn dos_missing_config_errors() {
    assert!(matches!(parse_str(Ok(parsed("x", Platform::Dos, "dosbox-staging", None, &[], None, None))), Err(ManifestError::DosConfigMissing)));
}

#[test]
fn dos_without_install_section_is_valid() {
    assert!(parse_str(Ok(parsed("x", Platform::Dos, "dosbox-staging", Some("../config/x.conf"), &[], None, None))).is_ok());
}

#[test]
fn amiga_without_file_field_is_valid() {
    assert!(parse_str(Ok(parsed("x", Platform::Amiga, "fs-uae", None, &[], None, Some("a500")))).is_ok());
}

#[test]
fn unknown_field_errors() {
    let outcome = parse_str(Err("unknown field `bogus_field`, expected one of `id`, `title`".into()));
    assert!(matches!(outcome, Err(ManifestError::Parse { .. })));
}
