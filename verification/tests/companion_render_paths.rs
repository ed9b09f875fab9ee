use reliquaint::companion_render::{
    companion_markdown_options, encode_rel_path, has_scheme, is_markdown_target, relative_refs,
    rewrite_image_dest, rewrite_link_dest, split_and_decode_content_path, total_bytes, trim_dot_slash,
    relative_image_refs, raw_html_byte_count, render_markdown,
};

#[test]
fn has_scheme_distinguishes_absolute_from_relative() {
    assert!(has_scheme("http://example.com"));
    assert!(has_scheme("https://example.com"));
    assert!(has_scheme("javascript:alert(1)"));
    assert!(has_scheme("data:image/png;base64,AAAA"));
    assert!(has_scheme("mailto:a@b.c"));
    assert!(!has_scheme("maps/spielburg.png"));
    assert!(!has_scheme("02-mid-game.md"));
    assert!(!has_scheme("./hints/boss.md"));
    assert!(!has_scheme("#anchor"));
    assert!(!has_scheme(""));
}

#[test]
fn markdown_target_detects_md_paths() {
    assert!(is_markdown_target("02-mid-game.md"));
    assert!(is_markdown_target("hints/boss.MD"));
    assert!(is_markdown_target("page.md#section"));
    assert!(!is_markdown_target("maps/spielburg.png"));
    assert!(!is_markdown_target("notes.txt"));
}

#[test]
fn markdown_target_ignores_query_and_fragment() {
    assert!(is_markdown_target("page.md?x=1"));
    assert!(!is_markdown_target("page.txt#a.md"));
}

#[test]
fn encode_rel_path_escapes_segments_and_keeps_separators() {
    assert_eq!(encode_rel_path("maps/boss fight.png"), "maps/boss%20fight.png");
    assert_eq!(encode_rel_path("01-a_b.c~/x.png"), "01-a_b.c~/x.png");
    assert_eq!(encode_rel_path("a#b.png"), "a%23b.png");
    assert_eq!(encode_rel_path("caf\u{e9}.png"), "caf%C3%A9.png");
}

#[test]
fn split_and_decode_round_trips_encoded_paths() {
    let (game, rel) = split_and_decode_content_path("/qfg1-ega/maps/boss%20fight.png");
    assert_eq!(game, "qfg1-ega");
    assert_eq!(rel, "maps/boss fight.png");
    let (_, rel) = split_and_decode_content_path("/qfg1-ega/a%23b.png");
    assert_eq!(rel, "a#b.png");
    let rel_in = "d\u{e9}j\u{e0} vu/x y.png";
    let path = format!("/g1/{}", encode_rel_path(rel_in));
    assert_eq!(split_and_decode_content_path(&path), ("g1".to_string(), rel_in.to_string()));
}

#[test]
fn decode_restores_dotdot_so_boundary_check_still_rejects() {
    let (_, rel) = split_and_decode_content_path("/game/%2E%2E/secret.png");
    assert_eq!(rel, "../secret.png");
}

#[test]
fn trim_dot_slash_removes_every_leading_pair() {
    assert_eq!(trim_dot_slash("././a/b"), "a/b");
    assert_eq!(trim_dot_slash("../a"), "../a");
}

#[test]
fn image_dest_rewrites_relative_and_drops_schemes() {
    assert_eq!(
        rewrite_image_dest("./maps/spielburg.png", "core", "qfg1-ega"),
        "reliquaint-content://core/qfg1-ega/maps/spielburg.png"
    );
    assert_eq!(rewrite_image_dest("https://tracker.example/p.gif", "core", "qfg1-ega"), "");
    assert_eq!(rewrite_image_dest("data:image/png;base64,AA", "core", "qfg1-ega"), "");
}

#[test]
fn link_dest_rewrites_markdown_and_keeps_others() {
    assert_eq!(
        rewrite_link_dest("02-mid-game.md", "core", "qfg1-ega"),
        "reliquaint-nav://core/qfg1-ega/02-mid-game.md"
    );
    assert_eq!(rewrite_link_dest("https://example.com/page", "core", "g"), "https://example.com/page");
    assert_eq!(rewrite_link_dest("notes.txt", "core", "g"), "notes.txt");
}

#[test]
fn relative_refs_filters_schemes_and_trims() {
    let dests = vec![
        "maps/x.png".to_string(),
        "./sub/y.gif".to_string(),
        "https://e/p.png".to_string(),
        "data:image/png;base64,AA".to_string(),
    ];
    assert_eq!(relative_refs(&dests), vec!["maps/x.png".to_string(), "sub/y.gif".to_string()]);
}

#[test]
fn relative_image_refs_collects_only_local_paths() {
    let md = "![a](maps/x.png) ![b](./sub/y.gif) ![c](https://e/p.png) ![d](data:image/png;base64,AA)";
    assert_eq!(relative_image_refs(md), vec!["maps/x.png".to_string(), "sub/y.gif".to_string()]);
    assert!(relative_image_refs("# just text\n\n[a link](other.md)").is_empty());
}

#[test]
fn raw_html_byte_count_counts_raw_html_only() {
    assert_eq!(raw_html_byte_count("# clean\n\nplain **markdown** only\n"), 0);
    assert!(raw_html_byte_count("text <span>x</span> more\n\n<div>block</div>\n") > 0);
}

#[test]
fn total_bytes_sums_and_saturates() {
    assert_eq!(total_bytes(&vec![3, 4, 5]), 12);
    assert_eq!(total_bytes(&vec![usize::MAX, 1]), usize::MAX);
    assert_eq!(total_bytes(&vec![]), 0);
}

#[test]
fn companion_options_enable_all_extensions() {
    let o = companion_markdown_options();
    assert!(o.tables && o.footnotes && o.strikethrough && o.tasklists);
}

#[test]
fn render_rewrites_images_and_escapes_raw_html() {
    let out = render_markdown("![map](maps/spielburg.png)\n", "core", "qfg1-ega");
    assert!(out.contains("src=\"reliquaint-content://core/qfg1-ega/maps/spielburg.png\""), "{out}");
    let out = render_markdown("Before <script>alert(1)</script> after\n", "core", "qfg1-ega");
    assert!(!out.contains("<script"), "{out}");
    assert!(out.contains("&lt;script&gt;"), "{out}");
    let out = render_markdown("[click](javascript:alert(1))\n", "core", "qfg1-ega");
    assert!(!out.contains("javascript:"), "{out}");
    let out = render_markdown("- [x] done\n- [ ] todo\n", "core", "qfg1-ega");
    assert!(out.contains("type=\"checkbox\""), "{out}");
}

#[test]
fn percent_encoding_writes_every_utf8_length() {
    assert_eq!(encode_rel_path("a b"), "a%20b");
    assert_eq!(encode_rel_path("\u{20ac}"), "%E2%82%AC");
    assert_eq!(encode_rel_path("\u{1f3ae}"), "%F0%9F%8E%AE");
    assert_eq!(encode_rel_path("\u{7ff}"), "%DF%BF");
}
