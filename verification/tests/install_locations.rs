use reliquaint::game_install::{archive_entry_path, dest_dir_from_install_path, locations, uninstall};

#[test]
fn locations_computes_staging_and_subdir() {
    let loc = locations("kq5", Some("EGA"), "/lib");
    assert_eq!(loc.dest_dir, "/lib/kq5");
    assert_eq!(loc.staging_dir, "/lib/.kq5.staging");
    assert_eq!(loc.install_path, "/lib/kq5/EGA");
    assert_eq!(loc.staged_install_path, "/lib/.kq5.staging/EGA");
}

#[test]
fn locations_without_subdir_uses_dirs_directly() {
    let loc = locations("fatman", None, "/lib");
    assert_eq!(loc.install_path, loc.dest_dir);
    assert_eq!(loc.staged_install_path, loc.staging_dir);
}

#[test]
fn dest_dir_from_install_path_strips_matching_subdir() {
    assert_eq!(dest_dir_from_install_path("/lib/kq5/EGA", Some("EGA")), "/lib/kq5");
}

#[test]
fn dest_dir_from_install_path_no_subdir_is_identity() {
    assert_eq!(dest_dir_from_install_path("/lib/fatman", None), "/lib/fatman");
}

#[test]
fn dest_dir_from_install_path_mismatched_subdir_is_identity() {
    assert_eq!(dest_dir_from_install_path("/lib/kq5", Some("EGA")), "/lib/kq5");
}

#[test]
fn archive_members_stay_inside_the_destination() {
    assert_eq!(archive_entry_path("disk1.adf").as_deref(), Some("disk1.adf"));
    assert_eq!(archive_entry_path("Data\\Disk2.adf").as_deref(), Some("Data/Disk2.adf"));
    assert_eq!(archive_entry_path("../../etc/passwd").as_deref(), Some("etc/passwd"));
    assert_eq!(archive_entry_path("/abs//x/./y").as_deref(), Some("abs/x/y"));
    assert_eq!(archive_entry_path("dir/").as_deref(), Some("dir"));
    assert_eq!(archive_entry_path("./.."), None);
    assert_eq!(archive_entry_path(""), None);
}

#[test]
fn uninstall_names_the_record_and_only_deletes_on_request() {
    let kept = uninstall("kq5", "/lib/kq5", false, "/data/installs");
    assert_eq!(kept.record_path, "/data/installs/kq5.toml");
    assert_eq!(kept.deleted_dir, None);
    let deleted = uninstall("kq5", "/lib/kq5", true, "/data/installs/");
    assert_eq!(deleted.record_path, "/data/installs/kq5.toml");
    assert_eq!(deleted.deleted_dir.as_deref(), Some("/lib/kq5"));
}

#[test]
fn install_path_maps_back_to_the_destination() {
    for (id, subdir) in [("kq5", Some("EGA")), ("fatman", None), ("qfg1-ega", Some("GAME.."))] {
        let l = locations(id, subdir, "/lib");
        assert_eq!(dest_dir_from_install_path(&l.install_path, subdir), l.dest_dir);
    }
    assert_eq!(dest_dir_from_install_path("/lib/kq5/EGA", Some("EGA")), "/lib/kq5");
    assert_eq!(dest_dir_from_install_path("/lib/fatman", None), "/lib/fatman");
    assert_eq!(dest_dir_from_install_path("/lib/kq5", Some("EGA")), "/lib/kq5");
}
