use reliquaint::catalog::{
    validate, Acquisition, AmigaModel, CatalogEntry, CatalogError, DosboxRuntime, Emulator, FsUaeRuntime, Game,
    Install, Meta, Platform, Runtime,
};

fn entry(schema: u32, id: &str, platform: Platform, emulator: Emulator, dosbox: bool, fs_uae: bool) -> CatalogEntry {
    CatalogEntry {
        schema_version: schema,
        game: Game { id: id.into(), title: "X".into(), platform, collection: None, collection_name: None },
        meta: Meta::default(),
        acquisition: Acquisition::default(),
        install: Install::default(),
        runtime: Runtime {
            emulator,
            sidecars: vec![],
            dosbox: if dosbox {
                Some(DosboxRuntime { config: "x.conf".into(), entry: "X.BAT".into(), mount: "c".into() })
            } else {
                None
            },
            fs_uae: if fs_uae {
                Some(FsUaeRuntime { model: AmigaModel::A500, config: None, floppies: vec![], hard_drives: vec![] })
            } else {
                None
            },
        },
    }
}

#[test]
fn catalog_rejects_unsupported_schema_version() {
    let e = entry(2, "qfg1-ega", Platform::Dos, Emulator::DosboxStaging, true, false);
    let err = validate(&e, "test.toml").unwrap_err();
    assert!(matches!(err, CatalogError::UnsupportedSchema { version: 2, .. }));
}

#[test]
fn catalog_rejects_invalid_id() {
    let e = entry(1, "Bad ID", Platform::Dos, Emulator::DosboxStaging, true, false);
    let err = validate(&e, "test.toml").unwrap_err();
    assert!(matches!(err, CatalogError::InvalidId { .. }));
}

#[test]
fn rejects_dos_platform_with_fs_uae_runtime() {
    let e = entry(1, "wrong", Platform::Dos, Emulator::FsUae, false, true);
    let err = validate(&e, "test.toml").unwrap_err();
    assert!(matches!(err, CatalogError::PlatformRuntimeMismatch { .. }));
}

#[test]
fn rejects_amiga_platform_with_dosbox_emulator() {
    let e = entry(1, "wrong", Platform::Amiga, Emulator::DosboxStaging, false, true);
    let err = validate(&e, "test.toml").unwrap_err();
    assert!(matches!(err, CatalogError::PlatformEmulatorMismatch { .. }));
}
