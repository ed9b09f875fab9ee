use reliquaint::catalog::{Acquisition, CatalogEntry, DosboxRuntime, Emulator, FsUaeRuntime, AmigaModel, Game, Install, Meta, Platform, Runtime};
use reliquaint::heuristic::ListedEntry;
use reliquaint::wizard::{add_result, commit_plan, locate, prepare, validate, AddOptions, LocateFacts, WizardError};

fn draft(id: &str, platform: Platform) -> CatalogEntry {
    let (emulator, dosbox, fs_uae) = match platform {
        Platform::Dos => (
            Emulator::DosboxStaging,
            Some(DosboxRuntime { config: format!("{id}.conf"), entry: "GAME.EXE".into(), mount: "c".into() }),
            None,
        ),
        Platform::Amiga => (
            Emulator::FsUae,
            None,
            Some(FsUaeRuntime { model: AmigaModel::A500, config: None, floppies: vec!["disk1.adf".into()], hard_drives: vec![] }),
        ),
    };
    CatalogEntry {
        schema_version: 1,
        game: Game { id: id.into(), title: id.into(), platform, collection: None, collection_name: None },
        meta: Meta::default(),
        acquisition: Acquisition::default(),
        install: Install::default(),
        runtime: Runtime { emulator, sidecars: vec![], dosbox, fs_uae },
    }
}

fn opts<'a>(bundled: &'a [String], user: &'a [String]) -> AddOptions<'a> {
    AddOptions {
        source: "/src/game".into(),
        user_tap_root: "/home/u/.local/share/reliquaint/user-tap".into(),
        installs_dir: "/home/u/.local/share/reliquaint/installs".into(),
        platform_override: None,
        bundled_ids: bundled,
        user_ids: user,
    }
}

#[test]
fn commit_plan_places_dos_entry_with_config() {
    let plan = commit_plan(&opts(&[], &[]), &draft("my-game", Platform::Dos)).ok().unwrap();
    assert_eq!(plan.catalog_dir, "/home/u/.local/share/reliquaint/user-tap/catalog/dos");
    assert_eq!(plan.manifest_path, "/home/u/.local/share/reliquaint/user-tap/catalog/dos/my-game.toml");
    assert_eq!(plan.config_path.as_deref(), Some("/home/u/.local/share/reliquaint/user-tap/catalog/dos/my-game.conf"));
    let result = add_result(plan, "/i/my-game.toml".into());
    assert_eq!(result.id, "my-game");
    assert_eq!(result.install_record_path, "/i/my-game.toml");
}

#[test]
fn commit_plan_amiga_has_no_config() {
    let plan = commit_plan(&opts(&[], &[]), &draft("lemmings", Platform::Amiga)).ok().unwrap();
    assert!(plan.config_path.is_none());
    assert!(plan.manifest_path.ends_with("/catalog/amiga/lemmings.toml"));
}

#[test]
fn commit_plan_refuses_collisions_user_first() {
    let ids = vec!["my-game".to_string()];
    assert!(matches!(commit_plan(&opts(&ids, &ids), &draft("my-game", Platform::Dos)), Err(WizardError::UserEntryExists(i)) if i == "my-game"));
    assert!(matches!(commit_plan(&opts(&ids, &[]), &draft("my-game", Platform::Dos)), Err(WizardError::BundledEntryExists(_))));
}

#[test]
fn locate_reports_partial_state() {
    let facts = LocateFacts { dos_manifest: false, dos_config: true, amiga_manifest: true, amiga_config: false, install_record: true };
    let loc = locate("lemmings", "/ut", "/inst", &facts);
    assert_eq!(loc.manifest_path.as_deref(), Some("/ut/catalog/amiga/lemmings.toml"));
    assert_eq!(loc.config_path, None);
    assert_eq!(loc.install_record_path.as_deref(), Some("/inst/lemmings.toml"));
    let none = LocateFacts { dos_manifest: false, dos_config: false, amiga_manifest: false, amiga_config: false, install_record: false };
    let loc = locate("x", "/ut", "/inst", &none);
    assert!(loc.manifest_path.is_none() && loc.config_path.is_none() && loc.install_record_path.is_none());
}

#[test]
fn prepare_checks_the_source_first() {
    assert!(matches!(prepare("/nope", false, false, &vec![], false, None), Err(WizardError::SourceMissing(p)) if p == "/nope"));
    assert!(matches!(prepare("/file", true, false, &vec![], false, None), Err(WizardError::SourceNotDir(_))));
}

#[test]
fn prepare_drafts_a_dos_game() {
    let listing = vec![
        ListedEntry { name: "RESOURCE.000".into(), is_file: true, size: 100_000, text: None },
        ListedEntry { name: "SIERRA.BAT".into(), is_file: true, size: 20, text: Some("sierra.exe\r\n".into()) },
        ListedEntry { name: "SIERRA.EXE".into(), is_file: true, size: 50_000, text: None },
    ];
    let (report, entry) = prepare("/src/my-custom-game", true, true, &listing, false, None).ok().unwrap();
    assert_eq!(report.platform.platform, Some(Platform::Dos));
    assert_eq!(entry.game.id, "my-custom-game");
    assert_eq!(entry.game.platform, Platform::Dos);
    assert!(validate(&entry).is_ok());
    let (report, _) = prepare("/src/my-custom-game", true, true, &listing, false, Some(Platform::Dos)).ok().unwrap();
    assert_eq!(report.platform.platform, Some(Platform::Dos));
}

#[test]
fn validate_refuses_bad_ids() {
    assert!(validate(&draft("Bad Id", Platform::Dos)).is_err());
}

#[test]
fn prepare_errors_on_missing_source() {
    let err = match prepare("/nonexistent/path/abc123", false, false, &vec![], false, None) {
        Err(e) => e,
        Ok(_) => panic!("a missing source must be refused"),
    };
    assert!(matches!(err, WizardError::SourceMissing(_)));
    assert_eq!(err.message(), "source directory not found: /nonexistent/path/abc123");
}
