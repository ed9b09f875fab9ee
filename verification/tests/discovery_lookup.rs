use reliquaint::discovery::{
    discover_catalog, find_artwork, find_by_id, is_catalog_file_name, manifest_scan_dirs, select_installed,
    GameDirFacts,
};
use reliquaint::manifest::{Manifest, ManifestError, Platform, Runtime};

fn dos_manifest(id: &str, title: &str, collection: &str, config: &str) -> Manifest {
    Manifest {
        id: id.to_string(),
        title: title.to_string(),
        platform: Platform::Dos,
        collection: collection.to_string(),
        runtime: Runtime {
            emulator: "dosbox-staging".to_string(),
            config: Some(config.to_string()),
            sidecars: vec!["fluidsynth".to_string()],
            file: None,
            model: None,
        },
    }
}

/// The two manifests of the sample repository, as scanning finds them.
fn sample_catalog() -> Vec<(String, Manifest)> {
    vec![
        (
            "fixtures/dos/kings-quest/manifests/kq1sci.toml".to_string(),
            dos_manifest("kq1sci", "King's Quest I (SCI)", "kings-quest", "../config/kq1sci.conf"),
        ),
        (
            "fixtures/dos/quest-for-glory/manifests/qfg1-ega.toml".to_string(),
            dos_manifest("qfg1-ega", "Quest for Glory 1 (EGA)", "quest-for-glory", "../config/qfg1-ega.conf"),
        ),
    ]
}

#[test]
fn find_by_id_returns_correct_manifest() {
    let result = find_by_id(sample_catalog(), "qfg1-ega");
    assert!(result.is_some());
    let (_, m) = result.unwrap();
    assert_eq!(m.id, "qfg1-ega");
}

#[test]
fn find_by_id_returns_none_for_unknown() {
    assert!(find_by_id(sample_catalog(), "nonexistent").is_none());
}

#[test]
fn catalog_file_names_skip_disabled_and_gitkeep() {
    assert!(is_catalog_file_name("qfg1-ega.toml"));
    assert!(!is_catalog_file_name(".gitkeep"));
    assert!(!is_catalog_file_name("old.toml.disabled"));
    assert!(!is_catalog_file_name("notes.txt"));
}

#[test]
fn scan_dirs_list_dos_collections_then_amiga() {
    let dos = vec![("quest-for-glory".to_string(), true), ("empty".to_string(), false)];
    assert_eq!(
        manifest_scan_dirs("/repo", &dos),
        vec![
            "/repo/dos/quest-for-glory/manifests".to_string(),
            "/repo/amiga/manifests".to_string(),
        ]
    );
}

#[test]
fn discover_catalog_keeps_parsed_and_reports_failures() {
    let found: Vec<(String, Result<Manifest, ManifestError>)> = vec![
        ("a.toml".to_string(), Ok(dos_manifest("aa", "A", "c", "x.conf"))),
        ("b.toml".to_string(), Err(ManifestError::DosConfigMissing)),
    ];
    let (ok, bad) = discover_catalog(found);
    assert_eq!(ok.len(), 1);
    assert_eq!(ok[0].0, "a.toml");
    assert_eq!(bad.len(), 1);
    assert_eq!(bad[0].0, "b.toml");
}

#[test]
fn find_artwork_prefers_named_files() {
    let entries = vec![("random.png".to_string(), true), ("cover.jpg".to_string(), true)];
    assert_eq!(find_artwork("/g", &entries), Some("/g/cover.jpg".to_string()));
}

#[test]
fn find_artwork_falls_back_to_any_image() {
    let entries = vec![("game.exe".to_string(), true), ("splash.BMP".to_string(), true)];
    assert_eq!(find_artwork("/g", &entries), Some("/g/splash.BMP".to_string()));
    let none = vec![("game.exe".to_string(), true)];
    assert_eq!(find_artwork("/g", &none), None);
}

#[test]
fn select_installed_keeps_known_non_empty_dirs_sorted_by_id() {
    let ids = vec!["qfg1-ega".to_string(), "kq1sci".to_string()];
    let dirs = vec![
        GameDirFacts { name: "qfg1-ega".to_string(), is_dir: true, non_empty: true },
        GameDirFacts { name: "mystery".to_string(), is_dir: true, non_empty: true },
        GameDirFacts { name: "kq1sci".to_string(), is_dir: true, non_empty: true },
        GameDirFacts { name: "kq1sci-empty".to_string(), is_dir: true, non_empty: false },
    ];
    assert_eq!(select_installed(&ids, &dirs), vec![(2, 1), (0, 0)]);
    let empty = vec![GameDirFacts { name: "qfg1-ega".to_string(), is_dir: true, non_empty: false }];
    assert!(select_installed(&ids, &empty).is_empty());
}
