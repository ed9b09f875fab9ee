use reliquaint::catalog::{Acquisition, CatalogEntry, DosboxRuntime, Emulator, Game, Install, Meta, Platform, Runtime};
use reliquaint::catalog_view::{subscription_priority, CatalogView, USER_TAP_PRIORITY};
use reliquaint::companion::{CompanionItem, CompanionKind};
use reliquaint::install_record::{Install as RecInstall, InstallRecord, LoadedInstallRecord};
use reliquaint::tap::{LoadedEntry, LoadedTap, TapMetadata};

fn entry(id: &str, platform: Platform) -> CatalogEntry {
    CatalogEntry {
        schema_version: 1,
        game: Game { id: id.into(), title: id.into(), platform, collection: None, collection_name: None },
        meta: Meta::default(),
        acquisition: Acquisition::default(),
        install: Install::default(),
        runtime: Runtime {
            emulator: Emulator::DosboxStaging,
            sidecars: vec![],
            dosbox: Some(DosboxRuntime { config: "c.conf".into(), entry: "G.EXE".into(), mount: "c".into() }),
            fs_uae: None,
        },
    }
}

fn tap(id: &str, ids: &[(&str, Platform)]) -> LoadedTap {
    LoadedTap {
        metadata: TapMetadata {
            schema_version: 1,
            id: id.into(),
            title: id.into(),
            description: String::new(),
            version: "1".into(),
            maintainer: "m".into(),
            url: "u".into(),
            license: "l".into(),
        },
        root: format!("/taps/{id}"),
        entries: ids.iter().map(|(g, p)| LoadedEntry { source_path: format!("/taps/{id}/{g}.toml"), entry: entry(g, *p) }).collect(),
    }
}

fn rec(tap: &str, id: &str) -> LoadedInstallRecord {
    LoadedInstallRecord {
        source_path: format!("/installs/{id}.toml"),
        record: InstallRecord {
            schema_version: 1,
            install: RecInstall { catalog_id: id.into(), tap: tap.into(), install_path: format!("/games/{id}"), installed_at: "t".into() },
        },
    }
}

fn comp(tap: &str, game: &str) -> CompanionItem {
    CompanionItem { tap_id: tap.into(), game_id: game.into(), rel_path: "a.md".into(), title: "A".into(), kind: CompanionKind::Markdown, section: None }
}

fn view() -> CatalogView {
    let core = tap("core", &[("qfg1", Platform::Dos), ("lemmings", Platform::Amiga)]);
    let extra = tap("extra", &[("qfg1", Platform::Dos)]);
    CatalogView::assemble_with_priorities(
        vec![extra, core],
        vec![vec![comp("extra", "qfg1")], vec![comp("core", "qfg1")]],
        vec![rec("core", "qfg1"), rec("old", "zork")],
        &vec![("core".to_string(), 0), ("extra".to_string(), 5)],
    )
}

#[test]
fn entries_come_in_priority_order() {
    let v = view();
    let keys: Vec<(String, String, i32)> = v.all().iter().map(|e| (e.tap_id.clone(), e.catalog.game.id.clone(), e.priority)).collect();
    assert_eq!(
        keys,
        vec![
            ("core".into(), "lemmings".into(), 0),
            ("core".into(), "qfg1".into(), 0),
            ("extra".into(), "qfg1".into(), 5),
        ]
    );
}

#[test]
fn winner_and_exact_lookups() {
    let v = view();
    assert_eq!(v.by_game_id("qfg1").unwrap().tap_id, "core");
    assert_eq!(v.by_id("qfg1").unwrap().tap_id, "core");
    assert_eq!(v.by_tap_and_id("extra", "qfg1").unwrap().priority, 5);
    assert!(v.by_tap_and_id("extra", "lemmings").is_none());
    assert_eq!(v.all_with_game_id("qfg1").len(), 2);
}

#[test]
fn installs_join_only_their_own_entry() {
    let v = view();
    let installed: Vec<(String, String)> = v.installed_only().iter().map(|e| (e.tap_id.clone(), e.catalog.game.id.clone())).collect();
    assert_eq!(installed, vec![("core".into(), "qfg1".into())]);
    assert_eq!(v.not_installed().len(), 2);
    assert_eq!(v.orphans().len(), 1);
    assert_eq!(v.orphans()[0].record.install.catalog_id, "zork");
}

#[test]
fn platform_and_companion_queries() {
    let v = view();
    let amiga: Vec<String> = v.by_platform(Platform::Amiga).iter().map(|e| e.catalog.game.id.clone()).collect();
    assert_eq!(amiga, vec!["lemmings".to_string()]);
    let taps: Vec<String> = v.companion_for("qfg1").iter().map(|c| c.tap_id.clone()).collect();
    assert_eq!(taps, vec!["core".to_string(), "extra".to_string()]);
    assert_eq!(v.all_companion().len(), 2);
}

#[test]
fn unprioritized_taps_sort_by_id() {
    let v = CatalogView::assemble(
        vec![tap("zeta", &[("g1", Platform::Dos)]), tap("alpha", &[("g1", Platform::Dos)])],
        vec![vec![], vec![]],
        vec![],
    );
    assert_eq!(v.by_game_id("g1").unwrap().tap_id, "alpha");
}

#[test]
fn the_user_tap_wins_over_every_subscription() {
    assert_eq!(subscription_priority(0), 0);
    assert_eq!(subscription_priority(7), 7);
    assert_eq!(subscription_priority(u32::MAX), i32::MAX);
    let local = tap("local", &[("qfg1", Platform::Dos)]);
    let core = tap("core", &[("qfg1", Platform::Dos)]);
    let v = CatalogView::assemble_with_priorities(
        vec![core, local],
        vec![vec![], vec![]],
        vec![],
        &vec![("core".to_string(), subscription_priority(0)), ("local".to_string(), USER_TAP_PRIORITY)],
    );
    assert_eq!(v.by_game_id("qfg1").unwrap().tap_id, "local");
    assert_eq!(v.all_with_game_id("qfg1").len(), 2);
}
