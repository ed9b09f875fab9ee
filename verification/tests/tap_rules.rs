use reliquaint::catalog::{Acquisition, CatalogEntry, DosboxRuntime, Emulator, Game, Install, Meta, Platform, Runtime};
use reliquaint::tap::{
    check_metadata, load_tap, load_user_tap, validate_tap_dir, LoadedEntry, LoadedTap, TapError, TapMetadata,
    RESERVED_USER_TAP_ID,
};

fn metadata(schema_version: u32, id: &str) -> TapMetadata {
    TapMetadata {
        schema_version,
        id: id.into(),
        title: "x".into(),
        description: "x".into(),
        version: "0.1.0".into(),
        maintainer: "x".into(),
        url: "https://x".into(),
        license: "x".into(),
    }
}

fn dos_entry(id: &str) -> LoadedEntry {
    LoadedEntry {
        source_path: format!("/taps/t/catalog/dos/{id}.toml"),
        entry: CatalogEntry {
            schema_version: 1,
            game: Game { id: id.into(), title: id.into(), platform: Platform::Dos, collection: None, collection_name: None },
            meta: Meta::default(),
            acquisition: Acquisition::default(),
            install: Install::default(),
            runtime: Runtime {
                emulator: Emulator::DosboxStaging,
                sidecars: vec![],
                dosbox: Some(DosboxRuntime { config: format!("{id}.conf"), entry: "GAME.EXE".into(), mount: "c".into() }),
                fs_uae: None,
            },
        },
    }
}

fn tap(id: &str, entries: Vec<LoadedEntry>) -> LoadedTap {
    LoadedTap { metadata: metadata(1, id), root: "/taps/t".into(), entries }
}

#[test]
fn tap_rejects_unsupported_schema_version() {
    let err = check_metadata(metadata(2, "x"), "test.toml").unwrap_err();
    assert!(matches!(err, TapError::UnsupportedSchema { version: 2, .. }));
}

#[test]
fn tap_rejects_invalid_id() {
    let err = check_metadata(metadata(1, "Bad ID"), "test.toml").unwrap_err();
    assert!(matches!(err, TapError::InvalidId { .. }));
    assert_eq!(
        err.message(),
        "invalid tap id \"Bad ID\" in test.toml: must match ^[a-z][a-z0-9-]*[a-z0-9]$ and be \u{2264}64 chars"
    );
}

#[test]
fn load_tap_rejects_reserved_user_tap_id() {
    match load_tap(tap(RESERVED_USER_TAP_ID, vec![])).unwrap_err() {
        TapError::ReservedTapId { id, path } => {
            assert_eq!(id, RESERVED_USER_TAP_ID);
            assert!(path.ends_with("tap.toml"));
        }
        other => panic!("expected ReservedTapId, got {other:?}"),
    }
}

#[test]
fn load_user_tap_requires_reserved_id() {
    match load_user_tap(tap("not-local", vec![])).unwrap_err() {
        TapError::UnexpectedUserTapId { id, expected, .. } => {
            assert_eq!(id, "not-local");
            assert_eq!(expected, RESERVED_USER_TAP_ID);
        }
        other => panic!("expected UnexpectedUserTapId, got {other:?}"),
    }
}

#[test]
fn load_user_tap_accepts_reserved_id() {
    let loaded = load_user_tap(tap(RESERVED_USER_TAP_ID, vec![dos_entry("my-custom-game")])).unwrap();
    assert_eq!(loaded.metadata.id, RESERVED_USER_TAP_ID);
    assert!(loaded.entries.iter().any(|e| e.entry.game.id == "my-custom-game"));
}

#[test]
fn validate_tap_dir_succeeds_on_valid_tap() {
    let (meta, mismatch) = validate_tap_dir(tap("test-tap", vec![dos_entry("game1")]), None);
    assert_eq!(meta.id, "test-tap");
    assert!(!mismatch);
}

#[test]
fn validate_tap_dir_is_non_fatal_on_id_mismatch() {
    let (meta, mismatch) = validate_tap_dir(tap("test-tap", vec![]), Some("other-id"));
    assert_eq!(meta.id, "test-tap");
    assert!(mismatch);
}

#[test]
fn tap_error_messages_read_as_before() {
    let e = TapError::DuplicateGameId {
        tap_id: "core".into(),
        game_id: "kq1".into(),
        first: "/a.toml".into(),
        second: "/b.toml".into(),
    };
    assert_eq!(e.message(), "duplicate game id \"kq1\" in tap \"core\": /a.toml and /b.toml");
    assert_eq!(TapError::MissingRoot { root: "/x".into() }.message(), "tap root not found: /x");
}
