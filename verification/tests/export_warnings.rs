use reliquaint::catalog::{Acquisition, CatalogEntry, DosboxRuntime, Emulator, Game, Install, Meta, Platform, Runtime};
use reliquaint::export::export_manifest;

fn minimal_dos_entry() -> CatalogEntry {
    CatalogEntry {
        schema_version: 1,
        game: Game {
            id: "minimal".to_string(),
            title: "Minimal".to_string(),
            platform: Platform::Dos,
            collection: None,
            collection_name: None,
        },
        meta: Meta::default(),
        acquisition: Acquisition::default(),
        install: Install::default(),
        runtime: Runtime {
            emulator: Emulator::DosboxStaging,
            sidecars: vec![],
            dosbox: Some(DosboxRuntime {
                config: "minimal.conf".to_string(),
                entry: "RUN.BAT".to_string(),
                mount: "c".to_string(),
            }),
            fs_uae: None,
        },
    }
}

#[test]
fn warnings_flag_missing_meta_and_acquisition() {
    let entry = minimal_dos_entry();
    let out = export_manifest(&entry, String::new());
    assert!(out.warnings.iter().any(|w| w.contains("year")));
    assert!(out.warnings.iter().any(|w| w.contains("developer")));
    assert!(out.warnings.iter().any(|w| w.contains("publisher")));
    assert!(out.warnings.iter().any(|w| w.contains("description")));
    assert!(out.warnings.iter().any(|w| w.contains("genre")));
    assert!(out.warnings.iter().any(|w| w.contains("[acquisition]")));
}

#[test]
fn warnings_quiet_when_meta_complete() {
    let mut entry = minimal_dos_entry();
    entry.meta = Meta {
        year: Some(1989),
        developer: Some("Sierra".to_string()),
        publisher: Some("Sierra".to_string()),
        genre: vec!["adventure".to_string()],
        tags: vec![],
        description: Some("desc".to_string()),
    };
    entry.acquisition = Acquisition { gog: Some("https://gog".to_string()), ..Default::default() };
    let out = export_manifest(&entry, "content".to_string());
    assert!(out.warnings.is_empty(), "got warnings: {:?}", out.warnings);
    assert_eq!(out.content, "content");
}
