use reliquaint::catalog::{Acquisition, CatalogEntry, DosboxRuntime, Emulator, Game, Install, Meta, Platform, Runtime};
use reliquaint::catalog_view::CatalogView;
use reliquaint::install_record::{Install as RecInstall, InstallRecord, LoadedInstallRecord};
use reliquaint::launch::{LaunchPlan, PreparedCommand, SidecarSpec};
use reliquaint::listing::{
    conflicts, filter_entries, launch_dry_run_lines, migration_step, migration_summary, run_exit_code, table_lines_for,
    winners, yes_answer, MigrationStep,
};
use reliquaint::tap::{LoadedEntry, LoadedTap, TapMetadata};

fn entry(id: &str, title: &str, platform: Platform, collection: Option<&str>, year: Option<u32>) -> CatalogEntry {
    CatalogEntry {
        schema_version: 1,
        game: Game { id: id.into(), title: title.into(), platform, collection: collection.map(|s| s.to_string()), collection_name: None },
        meta: Meta { year, ..Meta::default() },
        acquisition: Acquisition::default(),
        install: Install::default(),
        runtime: Runtime {
            emulator: Emulator::DosboxStaging,
            sidecars: vec![],
            dosbox: Some(DosboxRuntime { config: "c.conf".into(), entry: "G.EXE".into(), mount: "c".into() }),
            fs_uae: None,
        },
    }
}

fn tap(id: &str, entries: Vec<CatalogEntry>) -> LoadedTap {
    LoadedTap {
        metadata: TapMetadata {
            schema_version: 1,
            id: id.into(),
            title: id.into(),
            description: String::new(),
            version: "1".into(),
            maintainer: "m".into(),
            url: "u".into(),
            license: "l".into(),
        },
        root: format!("/taps/{id}"),
        entries: entries.into_iter().map(|e| LoadedEntry { source_path: format!("/taps/{id}/{}.toml", e.game.id), entry: e }).collect(),
    }
}

fn view() -> CatalogView {
    let core = tap(
        "core",
        vec![
            entry("kq1", "King's Quest", Platform::Dos, Some("kings-quest"), Some(1984)),
            entry("lemmings", "Lemmings", Platform::Amiga, None, None),
            entry("qfg1", "Quest for Glory", Platform::Dos, Some("quest-for-glory"), Some(1989)),
        ],
    );
    let extra = tap("extra", vec![entry("qfg1", "Quest for Glory (alt)", Platform::Dos, Some("quest-for-glory"), None)]);
    let rec = LoadedInstallRecord {
        source_path: "/i/qfg1.toml".into(),
        record: InstallRecord {
            schema_version: 1,
            install: RecInstall { catalog_id: "qfg1".into(), tap: "core".into(), install_path: "/g/qfg1".into(), installed_at: "t".into() },
        },
    };
    CatalogView::assemble_with_priorities(
        vec![core, extra],
        vec![vec![], vec![]],
        vec![rec],
        &vec![("core".to_string(), 1), ("extra".to_string(), 2)],
    )
}

#[test]
fn listing_filters_and_picks_winners() {
    let v = view();
    let all = filter_entries(&v, None, false, false);
    assert_eq!(all.len(), 4);
    let w = winners(&all);
    let ids: Vec<(&str, &str)> = w.iter().map(|e| (e.catalog.game.id.as_str(), e.tap_id.as_str())).collect();
    assert_eq!(ids, vec![("kq1", "core"), ("lemmings", "core"), ("qfg1", "core")]);
    assert_eq!(filter_entries(&v, Some(Platform::Amiga), false, false).len(), 1);
    assert_eq!(filter_entries(&v, None, true, false).len(), 1);
    assert_eq!(filter_entries(&v, None, false, true).len(), 3);
}

#[test]
fn conflicts_list_every_tap_winner_first() {
    let v = view();
    let all = filter_entries(&v, None, false, false);
    let c = conflicts(&all);
    assert_eq!(c.len(), 1);
    assert_eq!(c[0].id, "qfg1");
    assert_eq!(c[0].taps, vec![("core".to_string(), 1), ("extra".to_string(), 2)]);
    let only_kq = filter_entries(&v, None, true, false);
    assert!(conflicts(&only_kq).is_empty());
}

#[test]
fn table_groups_by_collection() {
    let v = view();
    let all = filter_entries(&v, None, false, false);
    let w = winners(&all);
    let lines = table_lines_for(&w);
    assert_eq!(
        lines,
        vec![
            "(no collection)".to_string(),
            format!("  {:<14}  {:<35}  {:<5}  not installed", "lemmings", "Lemmings", "----"),
            String::new(),
            "kings-quest".to_string(),
            format!("  {:<14}  {:<35}  {:<5}  not installed", "kq1", "King's Quest", "1984"),
            String::new(),
            "quest-for-glory".to_string(),
            format!("  {:<14}  {:<35}  {:<5}  installed", "qfg1", "Quest for Glory", "1989"),
        ]
    );
    assert!(table_lines_for(&vec![]).is_empty());
}

#[test]
fn prompts_and_exit_codes() {
    assert!(yes_answer(" Y \n"));
    assert!(yes_answer("y"));
    assert!(!yes_answer("yes"));
    assert!(!yes_answer(""));
    assert_eq!(run_exit_code(Some(0)), 0);
    assert_eq!(run_exit_code(Some(300)), 255);
    assert_eq!(run_exit_code(Some(-1)), 1);
    assert_eq!(run_exit_code(None), 1);
}

#[test]
fn launch_dry_run_shows_sidecars_then_primary() {
    let plan = LaunchPlan {
        primary: PreparedCommand { program: "dosbox".into(), args: vec!["-c".into(), "a b".into()], working_dir: None },
        sidecars: vec![SidecarSpec {
            name: "fluidsynth".into(),
            command: PreparedCommand { program: "fluidsynth".into(), args: vec!["-is".into()], working_dir: None },
        }],
    };
    assert_eq!(
        launch_dry_run_lines(&plan),
        vec!["[sidecar:fluidsynth] fluidsynth -is".to_string(), "[primary] dosbox -c \"a b\"".to_string()]
    );
}

#[test]
fn migration_decisions() {
    assert_eq!(migration_step(true, true), MigrationStep::AlreadyInstalled);
    assert_eq!(migration_step(false, false), MigrationStep::NotFound);
    assert_eq!(migration_step(false, true), MigrationStep::Register);
    assert_eq!(
        migration_summary(2, 1, 3, 0, "/games"),
        ("Done: 2 migrated, 1 already installed, 3 not found under /games, 0 errors.".to_string(), 0)
    );
    assert_eq!(migration_summary(0, 0, 0, 1, "/g").1, 2);
}
