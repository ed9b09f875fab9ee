use reliquaint::paths::{
    config_home_from_env, data_home_from_env, games_dir, packaged_repo_root_from, packaged_root_candidates, resolve_relative,
    tap_root, expand_tilde,
};

#[test]
fn resolve_relative_from_manifest() {
    let result = resolve_relative("/repo/dos/quest-for-glory/manifests/qfg1-ega.toml", "../config/qfg1-ega.conf");
    assert_eq!(result, "/repo/dos/quest-for-glory/manifests/../config/qfg1-ega.conf");
}

#[test]
fn resolve_relative_normalizes_path_components() {
    let result = resolve_relative("/repo/dos/quest-for-glory/manifests/qfg1-ega.toml", "../config/qfg1-ega.conf");
    assert!(result.contains("config/qfg1-ega.conf"));
}

#[test]
fn games_dir_joins_base_and_id() {
    assert_eq!(games_dir("/home/user/games", "qfg1-ega"), "/home/user/games/qfg1-ega");
}

#[test]
fn data_home_uses_env_when_set() {
    assert_eq!(data_home_from_env(Some("/tmp/xdg-data")), "/tmp/xdg-data");
}

#[test]
fn data_home_falls_back_when_env_unset_or_empty() {
    let unset = data_home_from_env(None);
    let empty = data_home_from_env(Some(""));
    assert!(unset.ends_with(".local/share"));
    assert!(empty.ends_with(".local/share"));
}

#[test]
fn config_home_uses_env_when_set() {
    assert_eq!(config_home_from_env(Some("/tmp/xdg-config")), "/tmp/xdg-config");
}

#[test]
fn config_home_falls_back_when_env_unset_or_empty() {
    let unset = config_home_from_env(None);
    let empty = config_home_from_env(Some(""));
    assert!(unset.ends_with(".config"));
    assert!(empty.ends_with(".config"));
}

#[test]
fn tap_root_joins_repo_root() {
    assert_eq!(tap_root("/repo"), "/repo/tap");
}

/// The packaged root found when exactly the candidates listed in `with_tap`
/// hold `tap/tap.toml`.
fn find_packaged(appdir: Option<&str>, exe: Option<&str>, with_tap: &[&str]) -> Option<String> {
    let candidates = packaged_root_candidates(appdir, exe);
    let has_tap: Vec<bool> = candidates.iter().map(|c| with_tap.contains(&c.as_str())).collect();
    packaged_repo_root_from(&candidates, &has_tap)
}

#[test]
fn packaged_repo_root_finds_exe_relative_lib() {
    let found = find_packaged(None, Some("/t/usr/bin/reliquaint"), &["/t/usr/bin/../lib/reliquaint"]);
    assert_eq!(found.as_deref(), Some("/t/usr/bin/../lib/reliquaint"));
}

#[test]
fn packaged_repo_root_finds_appdir() {
    let found = find_packaged(Some("/t"), None, &["/t/usr/lib/Reliquaint"]);
    assert_eq!(found.as_deref(), Some("/t/usr/lib/Reliquaint"));
}

#[test]
fn packaged_repo_root_none_when_absent() {
    assert!(find_packaged(Some("/nonexistent-xyz-appdir"), Some("/t/usr/bin/reliquaint"), &[]).is_none());
}

#[test]
fn packaged_candidates_are_appdir_then_exe_relative() {
    assert_eq!(
        packaged_root_candidates(Some("/app"), Some("/usr/bin/reliquaint")),
        vec![
            "/app/usr/lib/reliquaint".to_string(),
            "/app/usr/lib/Reliquaint".to_string(),
            "/usr/bin/../lib/reliquaint".to_string(),
            "/usr/bin/../lib/Reliquaint".to_string(),
        ]
    );
    assert!(packaged_root_candidates(None, None).is_empty());
    assert_eq!(packaged_repo_root_from(&vec!["a".to_string(), "b".to_string()], &vec![false, true]), Some("b".to_string()));
}

#[test]
fn absolute_path_unchanged() {
    assert_eq!(expand_tilde("/absolute/path"), "/absolute/path");
}
