use reliquaint::doctor::ProbeKind;
use reliquaint::setup::{action_for, build_commands, detect_distro_from, Distro, InstallAction};

#[test]
fn debian_id_detected() {
    let input = "PRETTY_NAME=\"Debian GNU/Linux 12\"\nID=debian\n";
    assert_eq!(detect_distro_from(input), Distro::DebianLike);
}

#[test]
fn ubuntu_id_like_detected() {
    assert_eq!(detect_distro_from("ID=ubuntu\nID_LIKE=debian\n"), Distro::DebianLike);
}

#[test]
fn pop_os_id_like_detected() {
    assert_eq!(detect_distro_from("ID=pop\nID_LIKE=\"ubuntu debian\"\n"), Distro::DebianLike);
}

#[test]
fn fedora_not_detected_as_debian() {
    assert_eq!(detect_distro_from("ID=fedora\n"), Distro::Unknown);
}

#[test]
fn empty_os_release_unknown() {
    assert_eq!(detect_distro_from(""), Distro::Unknown);
}

#[test]
fn action_for_dosbox_is_flatpak_on_any_distro() {
    for d in [Distro::DebianLike, Distro::Unknown] {
        let a = action_for(&ProbeKind::DosboxFlatpak, d).expect("dosbox always has action");
        assert!(matches!(a, InstallAction::FlatpakUserApp { .. }));
    }
}

#[test]
fn action_for_apt_kinds_on_debian() {
    let kinds = [ProbeKind::Fluidsynth, ProbeKind::Soundfont, ProbeKind::Innoextract, ProbeKind::FsUae, ProbeKind::Unzip];
    for k in kinds {
        let a = action_for(&k, Distro::DebianLike).unwrap_or_else(|| panic!("expected apt action for {k:?}"));
        assert!(matches!(a, InstallAction::Apt(_)));
    }
}

#[test]
fn action_for_apt_kinds_none_on_unknown_distro() {
    let kinds = [ProbeKind::Fluidsynth, ProbeKind::Soundfont, ProbeKind::Innoextract, ProbeKind::FsUae, ProbeKind::Unzip];
    for k in kinds {
        assert!(action_for(&k, Distro::Unknown).is_none());
    }
}

#[test]
fn action_for_game_install_dir_is_informational() {
    let a = action_for(&ProbeKind::GameInstallDir("qfg1-ega".into()), Distro::DebianLike).expect("informational");
    assert!(matches!(a, InstallAction::Informational(_)));
}

#[test]
fn build_commands_apt_uses_pkexec() {
    let cmds = build_commands(&InstallAction::Apt(vec!["fluidsynth"]));
    assert_eq!(cmds.len(), 1);
    assert_eq!(cmds[0][0], "pkexec");
    assert_eq!(cmds[0][1], "apt");
    assert_eq!(cmds[0][2], "install");
    assert!(cmds[0].contains(&"fluidsynth".to_string()));
}

#[test]
fn build_commands_flatpak_includes_remote_add_then_install() {
    let cmds = build_commands(&InstallAction::FlatpakUserApp {
        remote: "flathub",
        remote_url: "https://flathub.org/repo/flathub.flatpakrepo",
        app_id: "io.github.dosbox-staging",
    });
    assert_eq!(cmds.len(), 2);
    assert_eq!(cmds[0][0], "flatpak");
    assert_eq!(cmds[0][1], "remote-add");
    assert!(cmds[0].contains(&"--if-not-exists".to_string()));
    assert_eq!(cmds[1][0], "flatpak");
    assert_eq!(cmds[1][1], "install");
    assert!(cmds[1].contains(&"io.github.dosbox-staging".to_string()));
}

#[test]
fn build_commands_informational_is_empty() {
    let cmds = build_commands(&InstallAction::Informational("nope"));
    assert!(cmds.is_empty());
}
