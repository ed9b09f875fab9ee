use reliquaint::export::github_new_file_url;

#[test]
fn github_url_uses_platform_and_branch() {
    let url = github_new_file_url("dos", "develop");
    assert!(url.contains("/new/develop/tap/catalog/dos/"));
}
