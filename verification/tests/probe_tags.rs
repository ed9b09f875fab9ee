use reliquaint::commands::{doctor_result, kind_tag, parse_kind_tag};
use reliquaint::doctor::{ProbeKind, ProbeResult, ProbeStatus};

#[test]
fn kind_tags_round_trip() {
    let kinds = vec![
        ProbeKind::DosboxFlatpak,
        ProbeKind::Fluidsynth,
        ProbeKind::Soundfont,
        ProbeKind::Innoextract,
        ProbeKind::FsUae,
        ProbeKind::Unzip,
        ProbeKind::GameInstallDir("qfg1-ega".into()),
    ];
    for k in kinds {
        assert_eq!(parse_kind_tag(&kind_tag(&k)), Some(k.clone()));
    }
    assert_eq!(kind_tag(&ProbeKind::GameInstallDir("kq1".into())), "game-install-dir:kq1");
    assert_eq!(parse_kind_tag("bogus"), None);
    assert_eq!(parse_kind_tag("nope"), None);
}

#[test]
fn companion_tags_are_not_parsed() {
    let tag = kind_tag(&ProbeKind::Companion("core/qfg1-ega".into()));
    assert_eq!(tag, "companion:core/qfg1-ega");
    assert_eq!(parse_kind_tag(&tag), None);
    assert_eq!(parse_kind_tag("companion:x"), None);
}

#[test]
fn doctor_result_names_status() {
    let r = doctor_result(ProbeResult {
        name: "fs-uae".into(),
        status: ProbeStatus::Warn,
        detail: None,
        kind: ProbeKind::FsUae,
    });
    assert_eq!(r.status, "warn");
    assert_eq!(r.kind, "fs-uae");
}
