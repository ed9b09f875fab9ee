use reliquaint::commands::validate_external_url;

#[test]
fn validate_external_url_accepts_http_and_https() {
    assert!(validate_external_url("http://example.test/").is_ok());
    assert!(validate_external_url("https://example.test/").is_ok());
}

#[test]
fn validate_external_url_rejects_dangerous_schemes() {
    for url in [
        "javascript:alert(1)",
        "file:///etc/passwd",
        "data:text/html,<script>",
        "ftp://example.test/",
        "",
        "/etc/passwd",
    ] {
        assert!(validate_external_url(url).is_err(), "should reject {url:?}");
    }
}

#[test]
fn validate_external_url_error_names_the_url() {
    let err = validate_external_url("ftp://x").unwrap_err();
    assert_eq!(err, "refusing to open non-http(s) URL: ftp://x");
}
