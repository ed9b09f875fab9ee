use reliquaint::catalog::Platform;
use reliquaint::game_install::{
    plan_install, stage, uninstall, CopyAction, EntrySpec, InstallError, InstallPlan, SourceFacts, SourceKind,
};

fn spec(id: &str, platform: Platform) -> EntrySpec {
    EntrySpec { id: id.to_string(), platform, subdir: None, floppies: vec![], hard_drives: vec![] }
}

#[test]
fn missing_source_errors() {
    let facts = SourceFacts { source_exists: false, source_is_dir: false, dest_occupied: false };
    let err = plan_install(&spec("game", Platform::Dos), "/no/such/path", "/base", &facts).unwrap_err();
    assert!(matches!(err, InstallError::SourceMissing { .. }), "got {err:?}");
}

#[test]
fn stage_runs_commands_in_order() {
    let plan = InstallPlan {
        kind: SourceKind::Directory,
        dest_dir: "/t/x".into(),
        staging_dir: "/t/.x.staging".into(),
        install_path: "/t/x".into(),
        staged_install_path: "/t/.x.staging".into(),
        action: CopyAction::Commands(vec![vec!["mkdir".into(), "-p".into(), "x".into()]]),
    };
    let mut captured: Vec<Vec<String>> = Vec::new();
    let outcome = match &plan.action {
        CopyAction::Commands(cmds) => {
            captured.extend_from_slice(cmds);
            Ok(0)
        }
        CopyAction::UnzipRp9 { .. } => Err("not a command".to_string()),
    };
    stage(outcome).unwrap();
    assert_eq!(captured.len(), 1);
}

#[test]
fn stage_propagates_nonzero_exit() {
    let err = stage(Ok(7)).unwrap_err();
    assert!(matches!(err, InstallError::CommandFailed { code: 7 }), "got {err:?}");
}

#[test]
fn uninstall_missing_record_is_ok() {
    let outcome = uninstall("kq5", "/games/kq5", false, "/installs");
    assert_eq!(outcome.record_path, "/installs/kq5.toml");
    assert!(outcome.deleted_dir.is_none());
}
