use reliquaint::catalog::Platform;
use reliquaint::heuristic::amiga::{self, AmigaEntryPoints};
use reliquaint::heuristic::dos;
use reliquaint::heuristic::platform::{self, Confidence};
use reliquaint::heuristic::ListedEntry;

/// An empty file, as a directory listing reports it.
fn touched(name: &str) -> ListedEntry {
    let upper = name.to_ascii_uppercase();
    let text = if upper.ends_with(".BAT") { Some(String::new()) } else { None };
    ListedEntry { name: name.into(), is_file: true, size: 0, text }
}

/// A file with the given body.
fn written(name: &str, body: &str) -> ListedEntry {
    ListedEntry { name: name.into(), is_file: true, size: body.len() as u64, text: Some(body.into()) }
}

#[test]
fn single_adf_returns_one_floppy() {
    match amiga::detect(&vec![touched("Fatman.adf")]) {
        AmigaEntryPoints::Floppies(v) => assert_eq!(v, vec!["Fatman.adf"]),
        other => panic!("expected Floppies, got {other:?}"),
    }
}

#[test]
fn multi_floppy_sorted_alphabetically() {
    let entries = vec![touched("Game-Disk3.adf"), touched("Game-Disk1.adf"), touched("Game-Disk2.adf")];
    match amiga::detect(&entries) {
        AmigaEntryPoints::Floppies(v) => {
            assert_eq!(v, vec!["Game-Disk1.adf", "Game-Disk2.adf", "Game-Disk3.adf"])
        }
        other => panic!("expected Floppies, got {other:?}"),
    }
}

#[test]
fn whdload_returns_manual_entry() {
    match amiga::detect(&vec![touched("Fatman.slave"), touched("Fatman.info")]) {
        AmigaEntryPoints::ManualEntry { reason } => assert!(reason.contains("WHDLoad"), "reason: {reason}"),
        other => panic!("expected ManualEntry, got {other:?}"),
    }
}

#[test]
fn hdf_returns_manual_entry() {
    match amiga::detect(&vec![touched("game.hdf")]) {
        AmigaEntryPoints::ManualEntry { reason } => assert!(reason.contains(".hdf"), "reason: {reason}"),
        other => panic!("expected ManualEntry, got {other:?}"),
    }
}

#[test]
fn empty_dir_returns_manual_entry() {
    match amiga::detect(&vec![]) {
        AmigaEntryPoints::ManualEntry { reason } => assert!(reason.contains("no .ADF"), "reason: {reason}"),
        other => panic!("expected ManualEntry, got {other:?}"),
    }
}

#[test]
fn empty_dir_is_unknown() {
    let det = platform::detect(&vec![], false);
    assert_eq!(det.platform, None);
    assert_eq!(det.confidence, Confidence::Unknown);
}

#[test]
fn sierra_install_classifies_as_dos_high_confidence() {
    let entries = vec![
        touched("SIERRA.BAT"),
        touched("SIERRA.EXE"),
        touched("RESOURCE.000"),
        touched("RESOURCE.001"),
        touched("VOCAB.SCI"),
    ];
    let det = platform::detect(&entries, false);
    assert_eq!(det.platform, Some(Platform::Dos));
    assert_eq!(det.confidence, Confidence::High);
    assert!(det.evidence.iter().any(|s| s.contains("RESOURCE.000")));
}

#[test]
fn single_adf_classifies_as_amiga() {
    let det = platform::detect(&vec![touched("Fatman.adf")], false);
    assert_eq!(det.platform, Some(Platform::Amiga));
    assert!(det.confidence >= Confidence::Medium);
}

#[test]
fn startup_sequence_in_s_dir_is_amiga_signal() {
    let entries = vec![
        ListedEntry { name: "S".into(), is_file: false, size: 0, text: None },
        touched("Game.info"),
    ];
    let det = platform::detect(&entries, true);
    assert_eq!(det.platform, Some(Platform::Amiga));
}

#[test]
fn mixed_indicators_return_unknown_with_evidence() {
    let det = platform::detect(&vec![touched("RUN.BAT"), touched("DISK1.ADF")], false);
    assert_eq!(det.platform, None, "mixed indicators should be ambiguous");
    assert_eq!(det.confidence, Confidence::Low);
    assert!(!det.evidence.is_empty());
}

#[test]
fn whdload_slave_is_amiga_signal() {
    let det = platform::detect(&vec![touched("Fatman.slave"), touched("Fatman.info")], false);
    assert_eq!(det.platform, Some(Platform::Amiga));
}

#[test]
fn excludes_install_and_setup_scripts() {
    let entries = vec![touched("INSTALL.BAT"), touched("SETUP.EXE"), touched("UNINSTAL.EXE")];
    let candidates = dos::detect("/tmp/somewhere/game", &entries);
    assert!(candidates.is_empty(), "setup scripts should not appear: {candidates:?}");
}

#[test]
fn name_matching_bat_ranks_first() {
    let entries = vec![touched("QFG1-EGA.BAT"), touched("SIERRA.EXE")];
    let candidates = dos::detect("/tmp/x/qfg1-ega", &entries);
    assert_eq!(candidates[0].file_name, "QFG1-EGA.BAT");
    assert!(candidates[0].reason.contains("matching the directory name"));
}

#[test]
fn bat_invoking_exe_ranks_higher_than_unrelated_bat() {
    let entries = vec![
        written("MISC.BAT", "@echo off\n"),
        touched("QFG1.EXE"),
        written("RUN.BAT", "@echo off\nQFG1.EXE\n"),
    ];
    let candidates = dos::detect("/tmp/x/game", &entries);
    let ranked: Vec<&str> = candidates.iter().map(|c| c.file_name.as_str()).collect();
    let idx_run = ranked.iter().position(|n| *n == "RUN.BAT").unwrap();
    let idx_misc = ranked.iter().position(|n| *n == "MISC.BAT").unwrap();
    assert!(idx_run < idx_misc, "RUN.BAT (invokes QFG1.EXE) should outrank MISC.BAT: {candidates:?}");
}

#[test]
fn largest_exe_is_fallback_when_no_bat() {
    let big = "x".repeat(10_000);
    let entries = vec![
        ListedEntry { name: "BIG.EXE".into(), is_file: true, size: big.len() as u64, text: None },
        ListedEntry { name: "SMALL.EXE".into(), is_file: true, size: 5, text: None },
    ];
    let candidates = dos::detect("/tmp/x/game", &entries);
    assert_eq!(candidates[0].file_name, "BIG.EXE");
}

#[test]
fn no_executables_returns_empty() {
    let candidates = dos::detect("/tmp/x/game", &vec![touched("readme.txt")]);
    assert!(candidates.is_empty());
}

#[test]
fn ordinary_listings_fit_the_score_counters() {
    let entries = vec![touched("RESOURCE.000"), touched("SIERRA.BAT"), touched("SIERRA.EXE")];
    assert!(platform::scores_fit(&entries, false));
    assert!(platform::scores_fit(&vec![], true));
}
