use reliquaint::catalog::{
    Acquisition, AmigaModel, CatalogEntry, DosboxRuntime, Emulator, FsUaeRuntime, Game, Install as CatInstall, Meta,
    Platform, Runtime,
};
use reliquaint::catalog_view::CatalogView;
use reliquaint::companion::{index_companion, CompanionItem, GameListing};
use reliquaint::install_record::{Install as InstallRec, InstallRecord, LoadedInstallRecord};
use reliquaint::tap::{index_entries, LoadedEntry, LoadedTap, TapMetadata};

fn tap_metadata(id: &str) -> TapMetadata {
    TapMetadata {
        schema_version: 1,
        id: id.into(),
        title: id.into(),
        description: "test".into(),
        version: "0.1.0".into(),
        maintainer: "test".into(),
        url: "https://example.test".into(),
        license: "MIT".into(),
    }
}

fn dos_entry(id: &str) -> CatalogEntry {
    CatalogEntry {
        schema_version: 1,
        game: Game { id: id.into(), title: id.into(), platform: Platform::Dos, collection: None, collection_name: None },
        meta: Meta::default(),
        acquisition: Acquisition::default(),
        install: CatInstall::default(),
        runtime: Runtime {
            emulator: Emulator::DosboxStaging,
            sidecars: vec![],
            dosbox: Some(DosboxRuntime { config: format!("{id}.conf"), entry: "TEST.EXE".into(), mount: "c".into() }),
            fs_uae: None,
        },
    }
}

fn amiga_entry(id: &str) -> CatalogEntry {
    CatalogEntry {
        schema_version: 1,
        game: Game { id: id.into(), title: id.into(), platform: Platform::Amiga, collection: None, collection_name: None },
        meta: Meta::default(),
        acquisition: Acquisition::default(),
        install: CatInstall::default(),
        runtime: Runtime {
            emulator: Emulator::FsUae,
            sidecars: vec![],
            dosbox: None,
            fs_uae: Some(FsUaeRuntime { model: AmigaModel::A500, config: None, floppies: vec![], hard_drives: vec![] }),
        },
    }
}

/// A tap with `entries`, keyed and ordered by game id as a loaded tap is.
fn loaded_tap(tap_id: &str, entries: Vec<CatalogEntry>) -> LoadedTap {
    let loaded: Vec<LoadedEntry> = entries
        .into_iter()
        .map(|entry| LoadedEntry { source_path: format!("/test/{tap_id}/{}.toml", entry.game.id), entry })
        .collect();
    LoadedTap {
        metadata: tap_metadata(tap_id),
        root: format!("/test/{tap_id}"),
        entries: index_entries(tap_id, loaded).expect("distinct game ids"),
    }
}

fn loaded_install(tap: &str, catalog_id: &str) -> LoadedInstallRecord {
    LoadedInstallRecord {
        source_path: format!("/test/installs/{catalog_id}.toml"),
        record: InstallRecord {
            schema_version: 1,
            install: InstallRec {
                catalog_id: catalog_id.into(),
                tap: tap.into(),
                install_path: format!("/games/{catalog_id}"),
                installed_at: "2026-05-23T14:32:00Z".into(),
            },
        },
    }
}

fn no_companion(n: usize) -> Vec<Vec<CompanionItem>> {
    (0..n).map(|_| Vec::new()).collect()
}

fn prios(pairs: &[(&str, i32)]) -> Vec<(String, i32)> {
    pairs.iter().map(|(t, p)| (t.to_string(), *p)).collect()
}

#[test]
fn assemble_with_priorities_lower_priority_value_wins_by_game_id() {
    let tap_a = loaded_tap("tap-a", vec![dos_entry("qfg1-ega")]);
    let tap_b = loaded_tap("tap-b", vec![dos_entry("qfg1-ega")]);
    let view = CatalogView::assemble_with_priorities(
        vec![tap_a, tap_b],
        no_companion(2),
        vec![],
        &prios(&[("tap-a", 0), ("tap-b", 1)]),
    );
    let winner = view.by_game_id("qfg1-ega").expect("should find qfg1-ega");
    assert_eq!(winner.tap_id, "tap-a", "lower priority value should win");
    assert_eq!(winner.priority, 0);
}

#[test]
fn all_with_game_id_returns_all_sorted_by_priority() {
    let tap_a = loaded_tap("tap-a", vec![dos_entry("qfg1-ega")]);
    let tap_b = loaded_tap("tap-b", vec![dos_entry("qfg1-ega")]);
    let view = CatalogView::assemble_with_priorities(
        vec![tap_a, tap_b],
        no_companion(2),
        vec![],
        &prios(&[("tap-a", 0), ("tap-b", 1)]),
    );
    let all = view.all_with_game_id("qfg1-ega");
    assert_eq!(all.len(), 2);
    assert_eq!(all[0].tap_id, "tap-a", "priority 0 entry should come first");
    assert_eq!(all[1].tap_id, "tap-b", "priority 1 entry should come second");
}

#[test]
fn by_tap_and_id_returns_exact_match_regardless_of_priority() {
    let tap_a = loaded_tap("tap-a", vec![dos_entry("qfg1-ega")]);
    let tap_b = loaded_tap("tap-b", vec![dos_entry("qfg1-ega")]);
    let view = CatalogView::assemble_with_priorities(
        vec![tap_a, tap_b],
        no_companion(2),
        vec![],
        &prios(&[("tap-a", 0), ("tap-b", 1)]),
    );
    let entry = view.by_tap_and_id("tap-b", "qfg1-ega").expect("tap-b should be findable even though tap-a wins");
    assert_eq!(entry.tap_id, "tap-b");
}

#[test]
fn assemble_still_works_as_single_tap_view() {
    let tap = loaded_tap("core", vec![dos_entry("qfg1-ega"), dos_entry("kq5")]);
    let view = CatalogView::assemble(vec![tap], no_companion(1), vec![]);
    let e = view.by_game_id("qfg1-ega").expect("should find qfg1-ega");
    assert_eq!(e.tap_id, "core");
    assert!(view.by_game_id("nonexistent").is_none());
}

#[test]
fn by_game_id_returns_none_for_unknown_id() {
    let tap = loaded_tap("core", vec![dos_entry("qfg1-ega")]);
    let view = CatalogView::assemble(vec![tap], no_companion(1), vec![]);
    assert!(view.by_game_id("no-such-game").is_none());
}

#[test]
fn all_with_game_id_returns_empty_for_unknown_id() {
    let tap = loaded_tap("core", vec![dos_entry("qfg1-ega")]);
    let view = CatalogView::assemble(vec![tap], no_companion(1), vec![]);
    assert!(view.all_with_game_id("no-such-game").is_empty());
}

#[test]
fn by_tap_and_id_returns_none_for_unknown_tap() {
    let tap = loaded_tap("core", vec![dos_entry("qfg1-ega")]);
    let view = CatalogView::assemble(vec![tap], no_companion(1), vec![]);
    assert!(view.by_tap_and_id("other-tap", "qfg1-ega").is_none());
}

#[test]
fn stable_ordering_is_priority_then_tap_id_then_game_id() {
    let tap_z = loaded_tap("tap-z", vec![dos_entry("game-b"), dos_entry("game-a")]);
    let tap_a = loaded_tap("tap-a", vec![dos_entry("game-c")]);
    let tap_m = loaded_tap("tap-m", vec![dos_entry("game-d")]);
    let view = CatalogView::assemble_with_priorities(
        vec![tap_z, tap_a, tap_m],
        no_companion(3),
        vec![],
        &prios(&[("tap-z", 0), ("tap-a", 1), ("tap-m", 1)]),
    );
    let ids: Vec<(&str, &str)> =
        view.all().iter().map(|e| (e.tap_id.as_str(), e.catalog.game.id.as_str())).collect();
    assert_eq!(ids, vec![("tap-z", "game-a"), ("tap-z", "game-b"), ("tap-a", "game-c"), ("tap-m", "game-d")]);
}

#[test]
fn priority_field_is_set_on_entries() {
    let tap = loaded_tap("core", vec![dos_entry("qfg1-ega")]);
    let view = CatalogView::assemble_with_priorities(vec![tap], no_companion(1), vec![], &prios(&[("core", 42)]));
    assert_eq!(view.all()[0].priority, 42);
}

#[test]
fn unmapped_tap_gets_i32_max_priority() {
    let tap_mapped = loaded_tap("mapped", vec![dos_entry("game-x")]);
    let tap_unmapped = loaded_tap("unmapped", vec![dos_entry("game-y")]);
    let view = CatalogView::assemble_with_priorities(
        vec![tap_mapped, tap_unmapped],
        no_companion(2),
        vec![],
        &prios(&[("mapped", 5)]),
    );
    let unmapped_entry = view.by_tap_and_id("unmapped", "game-y").expect("should find unmapped entry");
    assert_eq!(unmapped_entry.priority, i32::MAX);
}

#[test]
fn install_record_joins_to_priority_winner() {
    let tap_a = loaded_tap("tap-a", vec![dos_entry("qfg1-ega")]);
    let tap_b = loaded_tap("tap-b", vec![dos_entry("qfg1-ega")]);
    let installs = vec![loaded_install("tap-a", "qfg1-ega")];
    let view = CatalogView::assemble_with_priorities(
        vec![tap_a, tap_b],
        no_companion(2),
        installs,
        &prios(&[("tap-a", 0), ("tap-b", 1)]),
    );
    let winner = view.by_game_id("qfg1-ega").unwrap();
    assert!(winner.install.is_some(), "install should be joined to tap-a entry");
    let loser = view.by_tap_and_id("tap-b", "qfg1-ega").unwrap();
    assert!(loser.install.is_none());
}

#[test]
fn join_marks_installed_and_not_installed() {
    let tap = loaded_tap("core", vec![dos_entry("qfg1-ega"), dos_entry("qfg2"), amiga_entry("fatman")]);
    let installs = vec![loaded_install("core", "qfg1-ega"), loaded_install("core", "fatman")];
    let view = CatalogView::assemble(vec![tap], no_companion(1), installs);
    assert_eq!(view.all().len(), 3);
    assert_eq!(view.installed_only().len(), 2);
    assert_eq!(view.not_installed().len(), 1);
    assert_eq!(view.orphans().len(), 0);
    let not_installed_ids: Vec<&str> = view.not_installed().iter().map(|e| e.catalog.game.id.as_str()).collect();
    assert_eq!(not_installed_ids, vec!["qfg2"]);
}

#[test]
fn install_record_with_unknown_catalog_id_becomes_orphan() {
    let tap = loaded_tap("core", vec![dos_entry("qfg1-ega")]);
    let installs = vec![loaded_install("core", "qfg1-ega"), loaded_install("core", "ghost-game")];
    let view = CatalogView::assemble(vec![tap], no_companion(1), installs);
    assert_eq!(view.all().len(), 1);
    assert_eq!(view.installed_only().len(), 1);
    assert_eq!(view.orphans().len(), 1);
    assert_eq!(view.orphans()[0].record.install.catalog_id, "ghost-game");
}

#[test]
fn install_record_referencing_unknown_tap_becomes_orphan() {
    let tap = loaded_tap("core", vec![dos_entry("qfg1-ega")]);
    let installs = vec![loaded_install("other-tap", "qfg1-ega")];
    let view = CatalogView::assemble(vec![tap], no_companion(1), installs);
    assert_eq!(view.installed_only().len(), 0);
    assert_eq!(view.orphans().len(), 1);
}

#[test]
fn by_id_returns_some_for_known_none_for_unknown() {
    let tap = loaded_tap("core", vec![dos_entry("qfg1-ega")]);
    let view = CatalogView::assemble(vec![tap], no_companion(1), vec![]);
    assert!(view.by_id("qfg1-ega").is_some());
    assert!(view.by_id("nonexistent").is_none());
}

#[test]
fn by_platform_filters_correctly() {
    let tap = loaded_tap("core", vec![dos_entry("qfg1-ega"), dos_entry("qfg2"), amiga_entry("fatman")]);
    let view = CatalogView::assemble(vec![tap], no_companion(1), vec![]);
    assert_eq!(view.by_platform(Platform::Dos).len(), 2);
    assert_eq!(view.by_platform(Platform::Amiga).len(), 1);
}

/// The companion items of a tap whose `companion/<game>/` directories hold
/// the files named, as the companion indexer reads them.
fn companion_of(tap_id: &str, games: &[(&str, &[&str])]) -> Vec<CompanionItem> {
    let listing: Vec<GameListing> = games
        .iter()
        .map(|(g, files)| GameListing {
            game_id: g.to_string(),
            root_files: files.iter().map(|f| f.to_string()).collect(),
            sections: vec![],
        })
        .collect();
    index_companion(tap_id, &listing)
}

#[test]
fn companion_for_aggregates_across_taps_in_priority_order() {
    let tap_a = loaded_tap("tap-a", vec![dos_entry("qfg1-ega")]);
    let tap_b = loaded_tap("tap-b", vec![dos_entry("qfg1-ega")]);
    let view = CatalogView::assemble_with_priorities(
        vec![tap_b, tap_a],
        vec![companion_of("tap-b", &[("qfg1-ega", &["guide.md"])]), companion_of("tap-a", &[("qfg1-ega", &["guide.md"])])],
        vec![],
        &prios(&[("tap-a", 0), ("tap-b", 1)]),
    );
    let items = view.companion_for("qfg1-ega");
    assert_eq!(items.len(), 2, "both taps contribute: {items:?}");
    assert_eq!(items[0].tap_id, "tap-a");
    assert_eq!(items[1].tap_id, "tap-b");
    assert!(items.iter().all(|i| i.game_id == "qfg1-ega"));
}

#[test]
fn companion_for_preserves_within_tap_file_order() {
    let tap = loaded_tap("core", vec![dos_entry("qfg1-ega")]);
    let comp = companion_of("core", &[("qfg1-ega", &["02-walkthrough.md", "01-overview.md", "appendix.md"])]);
    let view = CatalogView::assemble(vec![tap], vec![comp], vec![]);
    let titles: Vec<&str> = view.companion_for("qfg1-ega").iter().map(|i| i.title.as_str()).collect();
    assert_eq!(titles, vec!["Overview", "Walkthrough", "Appendix"]);
}

#[test]
fn companion_for_is_empty_when_no_content() {
    let tap = loaded_tap("core", vec![dos_entry("qfg1-ega")]);
    let view = CatalogView::assemble(vec![tap], vec![companion_of("core", &[])], vec![]);
    assert!(view.companion_for("qfg1-ega").is_empty());
    assert!(view.companion_for("no-such-game").is_empty());
}

#[test]
fn all_companion_includes_items_for_games_without_catalog_entries() {
    let tap = loaded_tap("core", vec![dos_entry("qfg1-ega")]);
    let comp = companion_of("core", &[("qfg1-ega", &["guide.md"]), ("ghost-game", &["notes.md"])]);
    let view = CatalogView::assemble(vec![tap], vec![comp], vec![]);
    let game_ids: Vec<&str> = view.all_companion().iter().map(|c| c.game_id.as_str()).collect();
    assert!(game_ids.contains(&"qfg1-ega"));
    assert!(
        game_ids.contains(&"ghost-game"),
        "all_companion must surface content for games absent from the catalog: {game_ids:?}"
    );
}

#[test]
fn all_returns_stable_order_by_tap_then_id() {
    let tap = loaded_tap("core", vec![amiga_entry("fatman"), dos_entry("qfg2"), dos_entry("qfg1-ega")]);
    let view = CatalogView::assemble(vec![tap], no_companion(1), vec![]);
    let ids: Vec<&str> = view.all().iter().map(|e| e.catalog.game.id.as_str()).collect();
    assert_eq!(ids, vec!["fatman", "qfg1-ega", "qfg2"]);
}
