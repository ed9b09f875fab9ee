use reliquaint::catalog::{
    Acquisition, CatalogEntry, DosboxRuntime, Emulator, Game, Install, Meta, Platform, Runtime,
};
use reliquaint::catalog_view::CatalogView;
use reliquaint::companion::{CompanionItem, CompanionKind};
use reliquaint::companion_protocol::ImageError;
use reliquaint::doctor::{
    check_companion, check_install, companion_docs_to_check, install_probe, orphan_probe, probe_emulator_command,
    probe_path_exists, probe_request, CompanionDocFacts, HostFacts, InstallFacts, ProbeKind, ProbeOutcome,
    ProbeRequest, ProbeStatus,
};
use reliquaint::install_record::{Install as RecInstall, InstallRecord, LoadedInstallRecord};
use reliquaint::tap::{LoadedEntry, LoadedTap, TapMetadata};
use reliquaint::user_config::UserConfig;

fn dos_entry(id: &str, sidecars: &[&str], expects: &[&str]) -> CatalogEntry {
    CatalogEntry {
        schema_version: 1,
        game: Game {
            id: id.to_string(),
            title: id.to_uppercase(),
            platform: Platform::Dos,
            collection: None,
            collection_name: None,
        },
        meta: Meta::default(),
        acquisition: Acquisition::default(),
        install: Install { expects_files: expects.iter().map(|s| s.to_string()).collect(), subdir: None },
        runtime: Runtime {
            emulator: Emulator::DosboxStaging,
            sidecars: sidecars.iter().map(|s| s.to_string()).collect(),
            dosbox: Some(DosboxRuntime { config: "x.conf".into(), entry: "GAME.EXE".into(), mount: "c".into() }),
            fs_uae: None,
        },
    }
}

fn tap(id: &str, entries: Vec<CatalogEntry>) -> LoadedTap {
    LoadedTap {
        metadata: TapMetadata {
            schema_version: 1,
            id: id.to_string(),
            title: id.to_string(),
            description: String::new(),
            version: "1".into(),
            maintainer: "m".into(),
            url: "u".into(),
            license: "l".into(),
        },
        root: format!("/taps/{id}"),
        entries: entries
            .into_iter()
            .map(|e| LoadedEntry { source_path: format!("/taps/{id}/{}.toml", e.game.id), entry: e })
            .collect(),
    }
}

fn record(tap: &str, id: &str, path: &str) -> LoadedInstallRecord {
    LoadedInstallRecord {
        source_path: format!("/installs/{id}.toml"),
        record: InstallRecord {
            schema_version: 1,
            install: RecInstall {
                catalog_id: id.to_string(),
                tap: tap.to_string(),
                install_path: path.to_string(),
                installed_at: "2024-01-01T00:00:00Z".into(),
            },
        },
    }
}

fn item(tap: &str, game: &str, rel: &str, kind: CompanionKind) -> CompanionItem {
    CompanionItem {
        tap_id: tap.into(),
        game_id: game.into(),
        rel_path: rel.into(),
        title: rel.into(),
        kind,
        section: None,
    }
}

fn sample_view() -> CatalogView {
    let core = tap("core", vec![dos_entry("qfg1-ega", &["fluidsynth"], &["SIERRA.EXE"]), dos_entry("kq1", &[], &[])]);
    let companion = vec![vec![
        item("core", "qfg1-ega", "01-walkthrough.md", CompanionKind::Markdown),
        item("core", "qfg1-ega", "map.png", CompanionKind::Image),
        item("core", "ghost-game", "notes.md", CompanionKind::Markdown),
        item("core", "ghost-game", "more.md", CompanionKind::Markdown),
    ]];
    let installs = vec![record("core", "qfg1-ega", "/games/qfg1-ega"), record("gone-tap", "lost", "/games/lost")];
    CatalogView::assemble(vec![core], companion, installs)
}

#[test]
fn probe_request_reads_flatpak_and_programs() {
    assert!(matches!(probe_request("flatpak run io.github.dosbox-staging"), ProbeRequest::FlatpakApp(a) if a == "io.github.dosbox-staging"));
    assert!(matches!(probe_request("fs-uae --x"), ProbeRequest::Program(p) if p == "fs-uae"));
    assert!(matches!(probe_request("flatpak list"), ProbeRequest::Program(p) if p == "flatpak"));
    assert!(matches!(probe_request("   "), ProbeRequest::EmptyCommand));
}

#[test]
fn emulator_probe_reports_outcome() {
    let p = probe_emulator_command("dosbox-staging", "flatpak run io.github.dosbox-staging", ProbeKind::DosboxFlatpak, ProbeOutcome::Success);
    assert_eq!(p.status, ProbeStatus::Pass);
    assert_eq!(p.detail.as_deref(), Some("flatpak run io.github.dosbox-staging"));
    let p = probe_emulator_command("fs-uae", "fs-uae", ProbeKind::FsUae, ProbeOutcome::Unavailable);
    assert_eq!(p.status, ProbeStatus::Unknown);
    let p = probe_emulator_command("fs-uae", "", ProbeKind::FsUae, ProbeOutcome::Success);
    assert_eq!(p.status, ProbeStatus::Missing);
    assert_eq!(p.detail.as_deref(), Some("user config command is empty"));
}

#[test]
fn path_probe_follows_existence() {
    assert_eq!(probe_path_exists("sf", "/x.sf2", ProbeKind::Soundfont, true).status, ProbeStatus::Pass);
    assert_eq!(probe_path_exists("sf", "/x.sf2", ProbeKind::Soundfont, false).status, ProbeStatus::Missing);
}

#[test]
fn install_probe_checks_dir_and_expected_files() {
    let expects = vec!["SIERRA.EXE".to_string(), "RESOURCE.000".to_string()];
    let missing_dir = install_probe("qfg1", "/g/qfg1", &InstallFacts { is_dir: false, entries: vec![] }, &expects);
    assert_eq!(missing_dir.name, "install path for qfg1");
    assert_eq!(missing_dir.status, ProbeStatus::Missing);
    let partial = install_probe("qfg1", "/g/qfg1", &InstallFacts { is_dir: true, entries: vec!["sierra.exe".into()] }, &expects);
    assert_eq!(partial.name, "expects_files for qfg1");
    assert_eq!(partial.detail.as_deref(), Some("missing in /g/qfg1: RESOURCE.000"));
    let ok = install_probe("qfg1", "/g/qfg1", &InstallFacts { is_dir: true, entries: vec!["SIERRA.EXE".into(), "resource.000".into()] }, &expects);
    assert_eq!(ok.status, ProbeStatus::Pass);
    assert_eq!(ok.name, "install for qfg1");
}

#[test]
fn orphan_probe_suggests_known_taps() {
    let p = orphan_probe("reliquaint-core", "kq5");
    assert_eq!(p.name, "orphan install record: kq5");
    assert_eq!(
        p.detail.as_deref(),
        Some("tap=\"reliquaint-core\" catalog_id=\"kq5\" \u{2014} no matching entry in any loaded tap \u{2014} run: reliquaint tap add reliquaint-core")
    );
    let q = orphan_probe("mine", "kq5");
    assert_eq!(q.detail.as_deref(), Some("tap=\"mine\" catalog_id=\"kq5\" \u{2014} no matching entry in any loaded tap"));
}

#[test]
fn companion_checks_report_documents_and_strays() {
    let view = sample_view();
    let docs = companion_docs_to_check(&view);
    assert_eq!(docs.len(), 1);
    assert_eq!(docs[0].rel_path, "01-walkthrough.md");
    let facts = vec![CompanionDocFacts {
        tap_id: "core".into(),
        game_id: "qfg1-ega".into(),
        rel_path: "01-walkthrough.md".into(),
        broken_images: vec![("maps/x.png".into(), ImageError::NotFound)],
        raw_html_bytes: 40,
    }];
    let probes = check_companion(&view, &facts);
    let names: Vec<&str> = probes.iter().map(|p| p.name.as_str()).collect();
    assert_eq!(
        names,
        vec![
            "broken image in core/qfg1-ega/01-walkthrough.md",
            "raw HTML stripped in core/qfg1-ega/01-walkthrough.md",
            "companion content for core/ghost-game",
        ]
    );
    assert_eq!(probes[0].detail.as_deref(), Some("references missing file: maps/x.png"));
    assert_eq!(probes[1].detail.as_deref(), Some("40 bytes of raw HTML were neutralized \u{2014} they won't render"));
    assert!(probes.iter().all(|p| p.status == ProbeStatus::Warn));
}

#[test]
fn raw_html_at_threshold_is_not_reported() {
    let view = sample_view();
    let facts = vec![CompanionDocFacts {
        tap_id: "core".into(),
        game_id: "qfg1-ega".into(),
        rel_path: "a.md".into(),
        broken_images: vec![],
        raw_html_bytes: 32,
    }];
    assert_eq!(check_companion(&view, &facts).len(), 1);
}

#[test]
fn check_install_orders_every_probe() {
    let view = sample_view();
    let mut config = UserConfig::default();
    config.emulators.fs_uae.kickstart_path = Some("/k".into());
    let facts = HostFacts {
        dosbox: ProbeOutcome::Success,
        fs_uae: ProbeOutcome::Failure,
        soundfont_exists: false,
        kickstart_exists: true,
        installs: vec![InstallFacts { is_dir: true, entries: vec!["SIERRA.EXE".into()] }],
        companion_docs: vec![],
    };
    let probes = check_install(&view, &config, &facts);
    let names: Vec<&str> = probes.iter().map(|p| p.name.as_str()).collect();
    assert_eq!(
        names,
        vec![
            "dosbox-staging",
            "fs-uae",
            "fluidsynth soundfont",
            "install for qfg1-ega",
            "orphan install record: lost",
            "companion content for core/ghost-game",
        ]
    );
    assert_eq!(probes[1].status, ProbeStatus::Missing);
    assert_eq!(probes[2].status, ProbeStatus::Missing);
}
