use reliquaint::known_taps::{is_known_tap, resolve_tap_source};

#[test]
fn resolves_known_short_name() {
    assert_eq!(resolve_tap_source("reliquaint-core"), "https://github.com/syraenix/reliquaint-core");
}

#[test]
fn passes_https_url_through() {
    let url = "https://example.com/my-tap";
    assert_eq!(resolve_tap_source(url), url);
}

#[test]
fn passes_local_path_through() {
    assert_eq!(resolve_tap_source("./local-tap"), "./local-tap");
    assert_eq!(resolve_tap_source("/abs/path"), "/abs/path");
}

#[test]
fn unknown_short_name_returned_as_is() {
    assert_eq!(resolve_tap_source("unknown-tap"), "unknown-tap");
}

#[test]
fn known_tap_membership() {
    assert!(is_known_tap("reliquaint-core"));
    assert!(!is_known_tap("other"));
}
