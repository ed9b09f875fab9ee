use reliquaint::catalog::{
    Acquisition, AmigaModel, CatalogEntry, DosboxRuntime, Emulator, FsUaeRuntime, Game, Install as CatInstall, Meta,
    Platform, Runtime,
};
use reliquaint::launch::{choose_amiga_source, compose_dosbox, compose_fs_uae, AmigaSource, LaunchError};
use reliquaint::user_config::UserConfig;

const QFG1_SOURCE: &str = "/tap/catalog/dos/qfg1-ega.toml";
const FATMAN_SOURCE: &str = "/tap/catalog/amiga/fatman.toml";

/// The catalog entry of the Quest for Glory I (EGA) fixture.
fn qfg1_ega() -> CatalogEntry {
    CatalogEntry {
        schema_version: 1,
        game: Game {
            id: "qfg1-ega".into(),
            title: "Quest for Glory I: So You Want to Be a Hero".into(),
            platform: Platform::Dos,
            collection: None,
            collection_name: None,
        },
        meta: Meta::default(),
        acquisition: Acquisition::default(),
        install: CatInstall::default(),
        runtime: Runtime {
            emulator: Emulator::DosboxStaging,
            sidecars: vec!["fluidsynth".into()],
            dosbox: Some(DosboxRuntime { config: "qfg1-ega.conf".into(), entry: "SIERRA.BAT".into(), mount: "c".into() }),
            fs_uae: None,
        },
    }
}

fn amiga_entry(id: &str, model: AmigaModel, config: Option<&str>, floppies: &[&str], hard_drives: &[&str]) -> CatalogEntry {
    CatalogEntry {
        schema_version: 1,
        game: Game { id: id.into(), title: id.into(), platform: Platform::Amiga, collection: None, collection_name: None },
        meta: Meta::default(),
        acquisition: Acquisition::default(),
        install: CatInstall::default(),
        runtime: Runtime {
            emulator: Emulator::FsUae,
            sidecars: vec![],
            dosbox: None,
            fs_uae: Some(FsUaeRuntime {
                model,
                config: config.map(|c| c.to_string()),
                floppies: floppies.iter().map(|s| s.to_string()).collect(),
                hard_drives: hard_drives.iter().map(|s| s.to_string()).collect(),
            }),
        },
    }
}

/// The catalog entry of the Fatman fixture.
fn fatman() -> CatalogEntry {
    amiga_entry("fatman", AmigaModel::A500, None, &["fatman.adf"], &[])
}

#[test]
fn compose_dosbox_happy_path_against_qfg1_ega() {
    let plan = compose_dosbox(&qfg1_ega(), QFG1_SOURCE, "/home/test/games/qfg1-ega", &UserConfig::default(), true)
        .unwrap();
    assert_eq!(plan.primary.program, "flatpak");
    let expected_args = vec![
        "run".to_string(),
        "io.github.dosbox-staging".to_string(),
        "-conf".to_string(),
        "/tap/catalog/dos/qfg1-ega.conf".to_string(),
        "-c".to_string(),
        r#"MOUNT c "/home/test/games/qfg1-ega""#.to_string(),
        "-c".to_string(),
        "c:".to_string(),
        "-c".to_string(),
        "SIERRA.BAT".to_string(),
        "-c".to_string(),
        "EXIT".to_string(),
    ];
    assert_eq!(plan.primary.args, expected_args);
}

#[test]
fn compose_dosbox_populates_fluidsynth_sidecar() {
    let plan = compose_dosbox(&qfg1_ega(), QFG1_SOURCE, "/games/qfg1-ega", &UserConfig::default(), true).unwrap();
    assert_eq!(plan.sidecars.len(), 1);
    let fs = &plan.sidecars[0];
    assert_eq!(fs.name, "fluidsynth");
    assert_eq!(fs.command.program, "fluidsynth");
    assert_eq!(fs.command.args, vec!["-i".to_string(), "/usr/share/sounds/sf2/FluidR3_GM.sf2".to_string()]);
}

#[test]
fn compose_dosbox_errors_on_empty_emulator_command() {
    let mut user = UserConfig::default();
    user.emulators.dosbox_staging.command = "   ".into();
    let err = compose_dosbox(&qfg1_ega(), QFG1_SOURCE, "/games/qfg1-ega", &user, true).unwrap_err();
    assert!(matches!(err, LaunchError::EmptyEmulatorCommand));
}

#[test]
fn compose_dosbox_errors_when_shipped_conf_missing() {
    let err = compose_dosbox(&qfg1_ega(), QFG1_SOURCE, "/games/qfg1-ega", &UserConfig::default(), false).unwrap_err();
    match err {
        LaunchError::ShippedConfigNotFound { path } => assert_eq!(path, "/tap/catalog/dos/qfg1-ega.conf"),
        other => panic!("expected ShippedConfigNotFound, got {other:?}"),
    }
}

#[test]
fn compose_fs_uae_happy_path_against_fatman_model_template() {
    let plan = compose_fs_uae(&fatman(), FATMAN_SOURCE, "/home/test/games/fatman", &UserConfig::default(), false, None)
        .unwrap();
    assert_eq!(plan.primary.program, "fs-uae");
    assert_eq!(
        plan.primary.args,
        vec![
            "--amiga_model=A500".to_string(),
            "--floppy_drive_count=1".to_string(),
            "--floppy_drive_0=/home/test/games/fatman/fatman.adf".to_string(),
            "--floppy_image_0=/home/test/games/fatman/fatman.adf".to_string(),
            "--fullscreen=0".to_string(),
            "--window_width=1920".to_string(),
            "--window_height=1440".to_string(),
        ]
    );
    assert!(plan.sidecars.is_empty());
}

#[test]
fn compose_fs_uae_uses_shipped_config_when_present() {
    let entry = amiga_entry("fatman", AmigaModel::A500, Some("fatman.fs-uae"), &["fatman.adf"], &[]);
    let plan = compose_fs_uae(&entry, FATMAN_SOURCE, "/games/fatman", &UserConfig::default(), true, None).unwrap();
    assert_eq!(plan.primary.args[0], "/tap/catalog/amiga/fatman.fs-uae");
    assert!(!plan.primary.args.iter().any(|a| a.starts_with("--amiga_model=")));
    assert!(plan.primary.args.iter().any(|a| a == "--floppy_drive_0=/games/fatman/fatman.adf"));
}

#[test]
fn compose_fs_uae_handles_multiple_floppies_in_order() {
    let entry = amiga_entry("multi", AmigaModel::A1200, None, &["disk1.adf", "disk2.adf", "disk3.adf"], &[]);
    let plan = compose_fs_uae(&entry, "/tap/catalog/amiga/multi.toml", "/games/multi", &UserConfig::default(), false, None)
        .unwrap();
    let args = &plan.primary.args;
    assert!(args.contains(&"--amiga_model=A1200".to_string()));
    assert!(args.contains(&"--floppy_drive_count=1".to_string()));
    assert!(args.contains(&"--floppy_drive_0=/games/multi/disk1.adf".to_string()));
    assert!(!args.iter().any(|a| a.starts_with("--floppy_drive_1") || a.starts_with("--floppy_drive_2")));
    assert!(args.contains(&"--floppy_image_0=/games/multi/disk1.adf".to_string()));
    assert!(args.contains(&"--floppy_image_1=/games/multi/disk2.adf".to_string()));
    assert!(args.contains(&"--floppy_image_2=/games/multi/disk3.adf".to_string()));
}

#[test]
fn compose_fs_uae_maps_hard_drives_in_order() {
    let entry = amiga_entry("wb", AmigaModel::A1200, None, &[], &["sys.hdf", "work.hdf"]);
    let plan =
        compose_fs_uae(&entry, "/tap/catalog/amiga/wb.toml", "/games/wb", &UserConfig::default(), false, None).unwrap();
    let args = &plan.primary.args;
    assert!(args.contains(&"--amiga_model=A1200".to_string()));
    assert!(args.contains(&"--hard_drive_0=/games/wb/sys.hdf".to_string()));
    assert!(args.contains(&"--hard_drive_1=/games/wb/work.hdf".to_string()));
}

#[test]
fn compose_fs_uae_autodetects_adf_when_nothing_declared() {
    let entry = amiga_entry("g", AmigaModel::A500, None, &[], &[]);
    let found = Some(AmigaSource::Floppy("/tmp/install/game.adf".into()));
    let plan =
        compose_fs_uae(&entry, "/tap/catalog/amiga/g.toml", "/tmp/install", &UserConfig::default(), false, found).unwrap();
    let args = &plan.primary.args;
    assert!(args.contains(&"--floppy_drive_0=/tmp/install/game.adf".to_string()), "{args:?}");
    assert!(args.contains(&"--floppy_image_0=/tmp/install/game.adf".to_string()), "{args:?}");
}

#[test]
fn compose_fs_uae_autodetects_hdf_when_nothing_declared() {
    let entry = amiga_entry("g", AmigaModel::A1200, None, &[], &[]);
    let found = Some(AmigaSource::HardDrive("/tmp/install/system.hdf".into()));
    let plan =
        compose_fs_uae(&entry, "/tap/catalog/amiga/g.toml", "/tmp/install", &UserConfig::default(), false, found).unwrap();
    assert!(plan.primary.args.contains(&"--hard_drive_0=/tmp/install/system.hdf".to_string()), "{:?}", plan.primary.args);
}

#[test]
fn compose_fs_uae_autodetected_config_replaces_amiga_model() {
    let entry = amiga_entry("g", AmigaModel::A1200, None, &[], &[]);
    let found = Some(AmigaSource::Config("/tmp/install/game.fs-uae".into()));
    let plan =
        compose_fs_uae(&entry, "/tap/catalog/amiga/g.toml", "/tmp/install", &UserConfig::default(), false, found).unwrap();
    assert_eq!(plan.primary.args[0], "/tmp/install/game.fs-uae");
    assert!(
        !plan.primary.args.iter().any(|a| a.starts_with("--amiga_model=")),
        "found .fs-uae config should replace --amiga_model: {:?}",
        plan.primary.args
    );
}

#[test]
fn compose_fs_uae_ignores_found_images_when_disks_are_declared() {
    let found = Some(AmigaSource::Floppy("/games/fatman/other.adf".into()));
    let plan = compose_fs_uae(&fatman(), FATMAN_SOURCE, "/games/fatman", &UserConfig::default(), false, found).unwrap();
    assert!(plan.primary.args.contains(&"--floppy_image_0=/games/fatman/fatman.adf".to_string()));
    assert!(!plan.primary.args.iter().any(|a| a.contains("other.adf")));
}

#[test]
fn compose_fs_uae_includes_kickstart_dir_when_set() {
    let mut user = UserConfig::default();
    user.emulators.fs_uae.kickstart_path = Some("/opt/kickstarts".into());
    let plan = compose_fs_uae(&fatman(), FATMAN_SOURCE, "/games/fatman", &user, false, None).unwrap();
    assert!(plan.primary.args.contains(&"--kickstarts_dir=/opt/kickstarts".to_string()));
}

#[test]
fn compose_fs_uae_windowed_integer_scaled_by_default() {
    let plan = compose_fs_uae(&fatman(), FATMAN_SOURCE, "/games/fatman", &UserConfig::default(), false, None).unwrap();
    let args = &plan.primary.args;
    assert!(args.contains(&"--fullscreen=0".to_string()));
    assert!(args.contains(&"--window_width=1920".to_string()));
    assert!(args.contains(&"--window_height=1440".to_string()));
}

#[test]
fn compose_fs_uae_fullscreen_when_user_opts_in() {
    let mut user = UserConfig::default();
    user.emulators.fs_uae.fullscreen = true;
    let plan = compose_fs_uae(&fatman(), FATMAN_SOURCE, "/games/fatman", &user, false, None).unwrap();
    assert!(plan.primary.args.contains(&"--fullscreen=1".to_string()));
    assert!(
        !plan.primary.args.iter().any(|a| a.starts_with("--window_")),
        "fullscreen launch should not set a window size: {:?}",
        plan.primary.args
    );
}

#[test]
fn compose_fs_uae_errors_when_declared_config_missing() {
    let entry = amiga_entry("fatman", AmigaModel::A500, Some("fatman.fs-uae"), &["fatman.adf"], &[]);
    let err = compose_fs_uae(&entry, FATMAN_SOURCE, "/games/fatman", &UserConfig::default(), false, None).unwrap_err();
    assert!(matches!(err, LaunchError::ShippedConfigNotFound { .. }));
}

#[test]
fn choose_amiga_source_prefers_config_then_hard_drive_then_floppy() {
    let files = |v: &[&str]| v.iter().map(|s| s.to_string()).collect::<Vec<String>>();
    match choose_amiga_source(&files(&["/g/a.ADF", "/g/b.hdf", "/g/sub/c.FS-UAE"])) {
        Some(AmigaSource::Config(p)) => assert_eq!(p, "/g/sub/c.FS-UAE"),
        _ => panic!("expected the config"),
    }
    match choose_amiga_source(&files(&["/g/a.adf", "/g/x/b.hdf", "/g/y/c.hdf"])) {
        Some(AmigaSource::HardDrive(p)) => assert_eq!(p, "/g/x/b.hdf"),
        _ => panic!("expected the first hard drive"),
    }
    match choose_amiga_source(&files(&["/g/readme.txt", "/g/disk1.adf", "/g/disk2.adf"])) {
        Some(AmigaSource::Floppy(p)) => assert_eq!(p, "/g/disk1.adf"),
        _ => panic!("expected the first floppy"),
    }
    assert!(choose_amiga_source(&files(&["/g/.adf", "/g/notes.txt"])).is_none());
}

#[test]
fn huge_window_scale_is_fine_when_fullscreen_or_failing_early() {
    let mut user = UserConfig::default();
    user.emulators.fs_uae.window_scale = u32::MAX;
    user.emulators.fs_uae.fullscreen = true;
    assert!(compose_fs_uae(&fatman(), FATMAN_SOURCE, "/g", &user, false, None).is_ok());
    user.emulators.fs_uae.fullscreen = false;
    user.emulators.fs_uae.command = "  ".into();
    assert!(matches!(
        compose_fs_uae(&fatman(), FATMAN_SOURCE, "/g", &user, false, None),
        Err(LaunchError::EmptyEmulatorCommand)
    ));
}
