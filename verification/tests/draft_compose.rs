use reliquaint::catalog::{AmigaModel, Platform};
use reliquaint::draft::{amiga, dos, DraftError};
use reliquaint::heuristic::amiga::AmigaEntryPoints;
use reliquaint::heuristic::dos::{EntryPointCandidate, EntryPointKind};
use reliquaint::heuristic::metadata::DraftMetadata;

fn amiga_metadata() -> DraftMetadata {
    DraftMetadata { id: "fatman".to_string(), title: "Fatman".to_string() }
}

fn dos_metadata() -> DraftMetadata {
    DraftMetadata { id: "my-custom-game".to_string(), title: "My Custom Game".to_string() }
}

fn bat_candidate(name: &str) -> EntryPointCandidate {
    EntryPointCandidate { file_name: name.to_string(), kind: EntryPointKind::Bat, reason: "test".to_string() }
}

#[test]
fn compose_uses_floppy_list_verbatim() {
    let eps = AmigaEntryPoints::Floppies(vec!["Game-Disk1.adf".to_string(), "Game-Disk2.adf".to_string()]);
    let entry = amiga::compose(&amiga_metadata(), &eps).unwrap();
    assert_eq!(entry.game.platform, Platform::Amiga);
    let fs = entry.runtime.fs_uae.as_ref().unwrap();
    assert_eq!(fs.model, AmigaModel::A500);
    assert!(fs.config.is_none());
    assert_eq!(fs.floppies, vec!["Game-Disk1.adf", "Game-Disk2.adf"]);
    assert!(fs.hard_drives.is_empty());
}

#[test]
fn compose_errors_on_manual_entry_state() {
    let eps = AmigaEntryPoints::ManualEntry { reason: "WHDLoad install".to_string() };
    let err = amiga::compose(&amiga_metadata(), &eps).unwrap_err();
    match err {
        DraftError::NoAmigaFloppies { reason } => assert!(reason.contains("WHDLoad")),
        other => panic!("expected NoAmigaFloppies, got {other:?}"),
    }
}

#[test]
fn amiga_compose_errors_without_id() {
    let mut meta = amiga_metadata();
    meta.id = String::new();
    let eps = AmigaEntryPoints::Floppies(vec!["x.adf".to_string()]);
    let err = amiga::compose(&meta, &eps).unwrap_err();
    assert!(matches!(err, DraftError::NoIdDerivable));
}

#[test]
fn compose_uses_top_ranked_candidate() {
    let entry = dos::compose(&dos_metadata(), &vec![bat_candidate("RUN.BAT"), bat_candidate("OTHER.BAT")]).unwrap();
    assert_eq!(entry.game.id, "my-custom-game");
    assert_eq!(entry.game.platform, Platform::Dos);
    let d = entry.runtime.dosbox.as_ref().unwrap();
    assert_eq!(d.entry, "RUN.BAT");
    assert_eq!(d.config, "my-custom-game.conf");
    assert_eq!(d.mount, "c");
}

#[test]
fn dos_compose_errors_without_id() {
    let mut meta = dos_metadata();
    meta.id = String::new();
    let err = dos::compose(&meta, &vec![bat_candidate("RUN.BAT")]).unwrap_err();
    assert!(matches!(err, DraftError::NoIdDerivable));
}

#[test]
fn compose_errors_without_entry_point() {
    let err = dos::compose(&dos_metadata(), &vec![]).unwrap_err();
    assert!(matches!(err, DraftError::NoDosEntryPoint));
}
