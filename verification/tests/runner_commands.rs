use reliquaint::launch::PreparedCommand;
use reliquaint::manifest::{Manifest, Platform, Runtime};
use reliquaint::runner::{
    build_amiga_adf_command, build_amiga_rp9_command, build_dos_command, build_fluidsynth_command, dry_run_lines,
    exit_code_from_status, format_command, plan_run, resolve_amiga_model_config, PrimaryRun, RunError, RunOpts,
    SOUNDFONT_PATH,
};

fn qfg1() -> Manifest {
    Manifest {
        id: "qfg1-ega".into(),
        title: "Quest for Glory 1 (EGA)".into(),
        platform: Platform::Dos,
        collection: "quest-for-glory".into(),
        runtime: Runtime {
            emulator: "dosbox-staging".into(),
            config: Some("../config/qfg1-ega.conf".into()),
            sidecars: vec!["fluidsynth".into()],
            file: None,
            model: None,
        },
    }
}

fn lemmings(file: &str) -> Manifest {
    Manifest {
        id: "lemmings".into(),
        title: "Lemmings".into(),
        platform: Platform::Amiga,
        collection: "amiga-classics".into(),
        runtime: Runtime { emulator: "fs-uae".into(), config: None, sidecars: vec![], file: Some(file.into()), model: None },
    }
}

#[test]
fn fluidsynth_command_has_correct_args() {
    let cmd = build_fluidsynth_command();
    assert_eq!(cmd.program, "fluidsynth");
    assert_eq!(cmd.args, vec!["-i".to_string(), SOUNDFONT_PATH.to_string()]);
}

#[test]
fn dos_command_uses_flatpak() {
    let cmd = build_dos_command("/repo/dos/quest-for-glory/manifests/qfg1-ega.toml", &qfg1()).ok().unwrap();
    assert_eq!(cmd.program, "flatpak");
    assert_eq!(cmd.args[0], "run");
    assert_eq!(cmd.args[1], "io.github.dosbox-staging");
    assert_eq!(cmd.args[2], "-conf");
    assert!(cmd.args[3].contains("config/qfg1-ega.conf"));
}

#[test]
fn amiga_adf_command_structure() {
    let cmd = build_amiga_adf_command("/games/lemmings.adf", "/repo/amiga/config/a500.fs-uae", false);
    assert_eq!(cmd.program, "fs-uae");
    assert_eq!(cmd.args, vec!["/repo/amiga/config/a500.fs-uae".to_string(), "--floppy_drive_0=/games/lemmings.adf".to_string()]);
    let windowed = build_amiga_adf_command("/games/lemmings.adf", "/m", true);
    assert!(windowed.args.contains(&"--fullscreen=0".to_string()));
}

#[test]
fn rp9_prefers_inner_config_then_adf() {
    let cmd = build_amiga_rp9_command("/g/x.rp9", "/m/a500.fs-uae", false, Some("/t/Config.fs-uae".into()), Some("/t/game.adf".into())).ok().unwrap();
    assert_eq!(cmd.args, vec!["/t/Config.fs-uae".to_string()]);
    let cmd = build_amiga_rp9_command("/g/x.rp9", "/m/a500.fs-uae", true, None, Some("/t/game.adf".into())).ok().unwrap();
    assert!(cmd.args.iter().any(|a| a.contains("game.adf")));
    assert!(cmd.args.contains(&"--fullscreen=0".to_string()));
    match build_amiga_rp9_command("/g/x.rp9", "/m", false, None, None) {
        Err(e @ RunError::Rp9WithoutGame(_)) => assert_eq!(e.message(), "rp9 bundle /g/x.rp9 has no .fs-uae config or .adf file"),
        _ => panic!("expected an error"),
    }
}

#[test]
fn model_config_must_exist() {
    assert_eq!(resolve_amiga_model_config("/repo", "a500", true).ok(), Some("/repo/amiga/config/a500.fs-uae".to_string()));
    assert!(matches!(resolve_amiga_model_config("/repo", "a500", false), Err(RunError::ModelConfigNotFound(p)) if p == "/repo/amiga/config/a500.fs-uae"));
}

#[test]
fn format_and_dry_run_lines() {
    let cmd = PreparedCommand { program: "fs-uae".into(), args: vec!["a".into(), "b c".into()], working_dir: None };
    assert_eq!(format_command(&cmd), "fs-uae a b c");
    let bare = PreparedCommand { program: "x".into(), args: vec![], working_dir: None };
    assert_eq!(format_command(&bare), "x");
    let lines = dry_run_lines(&vec![build_fluidsynth_command()], &bare);
    assert_eq!(lines, vec![format!("[sidecar] fluidsynth -i {SOUNDFONT_PATH}"), "[primary] x".to_string()]);
}

#[test]
fn plan_run_by_platform_and_extension() {
    let opts = RunOpts { dry_run: true, windowed: false };
    let plan = plan_run("/repo/dos/q/manifests/qfg1-ega.toml", &qfg1(), "/repo", &opts, true).ok().unwrap();
    assert_eq!(plan.sidecars.len(), 1);
    assert!(matches!(plan.primary, PrimaryRun::Command(ref c) if c.program == "flatpak"));
    let plan = plan_run("/repo/amiga/manifests/l.toml", &lemmings("../games/l.adf"), "/repo", &opts, true).ok().unwrap();
    assert!(matches!(plan.primary, PrimaryRun::Command(ref c) if c.args[1] == "--floppy_drive_0=/repo/amiga/manifests/../games/l.adf"));
    let plan = plan_run("/repo/amiga/manifests/l.toml", &lemmings("../games/l.rp9"), "/repo", &opts, true).ok().unwrap();
    assert!(matches!(plan.primary, PrimaryRun::Rp9 { ref model_config, .. } if model_config == "/repo/amiga/config/a500.fs-uae"));
    assert!(matches!(plan_run("/m.toml", &lemmings("x.zip"), "/repo", &opts, true), Err(RunError::UnsupportedExtension(e)) if e == "zip"));
    assert!(matches!(plan_run("/m.toml", &lemmings("x.adf"), "/repo", &opts, false), Err(RunError::ModelConfigNotFound(_))));
}

#[test]
fn exit_codes_keep_low_byte() {
    assert_eq!(exit_code_from_status(Some(0)), 0);
    assert_eq!(exit_code_from_status(Some(3)), 3);
    assert_eq!(exit_code_from_status(Some(257)), 1);
    assert_eq!(exit_code_from_status(None), 1);
}

#[test]
fn amiga_adf_command_windowed() {
    let cmd = build_amiga_adf_command("/games/lemmings.adf", "/repo/amiga/config/a500.fs-uae", true);
    assert!(cmd.args.contains(&"--fullscreen=0".to_string()));
}
