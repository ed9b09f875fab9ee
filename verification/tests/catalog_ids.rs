use reliquaint::catalog::is_valid_id;

#[test]
fn id_validation_accepts_canonical_examples() {
    for id in &["qfg1-ega", "kings-quest-6", "fatman", "reliquaint-core", "kq1sci"] {
        assert!(is_valid_id(id), "{id} should be valid");
    }
}

#[test]
fn id_validation_rejects_bad_forms() {
    let bad = [
        "",
        "a",
        "-leading-hyphen",
        "trailing-hyphen-",
        "double--hyphen",
        "UPPER",
        "with_underscore",
        "with space",
        "0-leading-digit",
    ];
    for id in &bad {
        assert!(!is_valid_id(id), "{id} should be invalid");
    }
}

#[test]
fn id_validation_length_limits() {
    assert!(is_valid_id("ab"));
    let long_ok = format!("a{}", "b".repeat(63));
    assert!(is_valid_id(&long_ok));
    let too_long = format!("a{}", "b".repeat(64));
    assert!(!is_valid_id(&too_long));
}
