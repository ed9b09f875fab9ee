use reliquaint::artwork::{detect_in_dir, is_loose_image, resolve_art_in, resolve_tap_art};

fn files(names: &[&str]) -> Vec<(String, bool)> {
    names.iter().map(|n| (n.to_string(), true)).collect()
}

#[test]
fn detect_prefers_named_cover_over_loose_and_box() {
    assert_eq!(detect_in_dir("/g", &files(&["box.png", "screenshot.png", "cover.png"])), Some("/g/cover.png".into()));
}

#[test]
fn detect_named_priority_icon_before_box() {
    assert_eq!(detect_in_dir("/g", &files(&["box.png", "icon.png"])), Some("/g/icon.png".into()));
}

#[test]
fn detect_falls_back_to_first_loose_image_by_name() {
    assert_eq!(detect_in_dir("/g", &files(&["RESOURCE.001", "screenshot.jpg"])), Some("/g/screenshot.jpg".into()));
    assert_eq!(detect_in_dir("/g", &files(&["b.png", "a.png"])), Some("/g/a.png".into()));
    assert_eq!(detect_in_dir("/g", &vec![]), None);
    assert_eq!(detect_in_dir("/g", &vec![("cover.png".to_string(), false)]), None);
}

#[test]
fn loose_images_by_extension() {
    assert!(is_loose_image("x.PNG"));
    assert!(is_loose_image("x.jpeg"));
    assert!(!is_loose_image("x.gif"));
    assert!(!is_loose_image("png"));
}

#[test]
fn art_must_stay_inside_and_exist() {
    let ok = Some(("/tap/art/cover.png".to_string(), "/tap".to_string()));
    assert_eq!(resolve_art_in("art/cover.png", ok.clone(), true), Some("/tap/art/cover.png".into()));
    assert_eq!(resolve_art_in("../escape.png", ok.clone(), true), None);
    assert_eq!(resolve_art_in("/etc/passwd", ok.clone(), true), None);
    assert_eq!(resolve_art_in("art/cover.png", ok.clone(), false), None);
    assert_eq!(resolve_art_in("nope.png", None, true), None);
    let escaped = Some(("/elsewhere/x.png".to_string(), "/tap".to_string()));
    assert_eq!(resolve_tap_art("link.png", escaped, true), None);
}

#[test]
fn detect_falls_back_to_lone_loose_image() {
    assert_eq!(detect_in_dir("/g", &files(&["RESOURCE.001", "screenshot.jpg"])), Some("/g/screenshot.jpg".into()));
}

#[test]
fn detect_loose_fallback_is_deterministic() {
    assert_eq!(detect_in_dir("/g", &files(&["b.png", "a.png"])), Some("/g/a.png".into()));
}

#[test]
fn detect_returns_none_for_empty_dir() {
    assert_eq!(detect_in_dir("/g", &vec![]), None);
}

#[test]
fn detect_returns_none_for_missing_dir() {
    // A directory that cannot be listed lists as empty.
    assert_eq!(detect_in_dir("/g/nope", &vec![]), None);
}

#[test]
fn resolve_art_in_returns_contained_file() {
    let got = resolve_art_in("art/cover.png", Some(("/d/art/cover.png".to_string(), "/d".to_string())), true);
    assert!(got.is_some());
    assert!(got.unwrap().ends_with("art/cover.png"));
}

#[test]
fn resolve_art_in_rejects_traversal_and_absolute() {
    let base = Some(("/d/ok.png".to_string(), "/d".to_string()));
    assert_eq!(resolve_art_in("../escape.png", base.clone(), true), None);
    assert_eq!(resolve_art_in("/etc/passwd", base, true), None);
}

#[test]
fn resolve_art_in_returns_none_for_missing_file() {
    // A file that does not exist cannot be resolved.
    assert_eq!(resolve_art_in("nope.png", None, false), None);
}
