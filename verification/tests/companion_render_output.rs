use pulldown_cmark::{Event, LinkType};
use reliquaint::companion_render::{neutralize_and_rewrite, MdEvent};
use reliquaint::companion_render::{relative_image_refs, render_markdown, split_and_decode_content_path};

fn render(md: &str) -> String {
    render_markdown(md, "core", "qfg1-ega")
}

#[test]
fn spaced_image_and_link_round_trip_through_url() {
    let img = render("![m](<maps/boss fight.png>)\n");
    assert!(img.contains("src=\"reliquaint-content://core/qfg1-ega/maps/boss%20fight.png\""), "{img}");
    let link = render("[next](<mid game.md>)\n");
    assert!(link.contains("href=\"reliquaint-nav://core/qfg1-ega/mid%20game.md\""), "{link}");
    let (game, rel) = split_and_decode_content_path("/qfg1-ega/maps/boss%20fight.png");
    assert_eq!(game, "qfg1-ega");
    assert_eq!(rel, "maps/boss fight.png");
}

#[test]
fn encoding_covers_url_chars_pulldown_leaves_live() {
    let img = render("![m](<a#b.png>)\n");
    assert!(img.contains("src=\"reliquaint-content://core/qfg1-ega/a%23b.png\""), "{img}");
    let (_, rel) = split_and_decode_content_path("/qfg1-ega/a%23b.png");
    assert_eq!(rel, "a#b.png");
}

#[test]
fn relative_image_refs_empty_without_images() {
    assert!(relative_image_refs("# just text\n\n[a link](other.md)").is_empty());
}

#[test]
fn renders_core_markdown_features() {
    let out = render("# Title\n\nSome **bold** and *italic* and `code`.\n\n- a\n- b\n\n> quote\n\n```\nfenced\n```\n");
    assert!(out.contains("<h1>Title</h1>"), "{out}");
    assert!(out.contains("<strong>bold</strong>"), "{out}");
    assert!(out.contains("<em>italic</em>"), "{out}");
    assert!(out.contains("<code>code</code>"), "{out}");
    assert!(out.contains("<ul>") && out.contains("<li>a</li>"), "{out}");
    assert!(out.contains("<blockquote>"), "{out}");
    assert!(out.contains("<pre><code>fenced"), "{out}");
}

#[test]
fn renders_tables() {
    let out = render("| A | B |\n|---|---|\n| 1 | 2 |\n");
    assert!(out.contains("<table>"), "{out}");
    assert!(out.contains("<th>A</th>"), "{out}");
    assert!(out.contains("<td>1</td>"), "{out}");
}

#[test]
fn renders_footnotes() {
    let out = render("Text with a note[^1].\n\n[^1]: The note.\n");
    assert!(out.contains("The note."), "{out}");
}

#[test]
fn renders_task_lists_with_forced_checkbox() {
    let out = render("- [x] done\n- [ ] todo\n");
    assert!(out.contains("type=\"checkbox\""), "{out}");
    assert!(out.contains("checked"), "{out}");
    assert!(!out.contains("type=\"text\""), "{out}");
}

#[test]
fn renders_strikethrough() {
    let out = render("~~gone~~\n");
    assert!(out.contains("<del>gone</del>"), "{out}");
}

#[test]
fn relative_image_src_rewritten_to_content_protocol() {
    let out = render("![map](maps/spielburg.png)\n");
    assert!(out.contains("src=\"reliquaint-content://core/qfg1-ega/maps/spielburg.png\""), "{out}");
}

#[test]
fn dot_slash_prefix_trimmed_in_rewrite() {
    let out = render("![map](./maps/spielburg.png)\n");
    assert!(out.contains("src=\"reliquaint-content://core/qfg1-ega/maps/spielburg.png\""), "{out}");
}

#[test]
fn relative_md_link_rewritten_to_nav_protocol() {
    let out = render("[next section](02-mid-game.md)\n");
    assert!(out.contains("href=\"reliquaint-nav://core/qfg1-ega/02-mid-game.md\""), "{out}");
}

#[test]
fn external_links_pass_through() {
    let out = render("[site](https://example.com/page)\n");
    assert!(out.contains("href=\"https://example.com/page\""), "{out}");
}

#[test]
fn raw_script_tag_is_escaped_not_emitted() {
    let out = render("Before <script>alert(1)</script> after\n");
    assert!(!out.contains("<script"), "script tag leaked: {out}");
    assert!(out.contains("&lt;script&gt;"), "expected escaped text: {out}");
}

#[test]
fn raw_img_onerror_is_neutralized() {
    let out = render("<img src=x onerror=alert(1)>\n");
    assert!(!out.contains("<img"), "live img tag leaked: {out}");
    assert!(out.contains("&lt;img"), "expected escaped text: {out}");
}

#[test]
fn raw_iframe_is_neutralized() {
    let out = render("<iframe src=\"https://evil.example\"></iframe>\n");
    assert!(!out.contains("<iframe"), "iframe leaked: {out}");
}

#[test]
fn raw_svg_onload_is_neutralized() {
    let out = render("<svg onload=alert(1)></svg>\n");
    assert!(!out.contains("<svg"), "live svg tag leaked: {out}");
    assert!(out.contains("&lt;svg"), "expected escaped text: {out}");
}

#[test]
fn raw_style_block_is_neutralized() {
    let out = render("<style>body{display:none}</style>\n");
    assert!(!out.contains("<style"), "style block leaked: {out}");
}

#[test]
fn javascript_link_scheme_is_stripped() {
    let out = render("[click](javascript:alert(1))\n");
    assert!(!out.contains("javascript:"), "js scheme leaked: {out}");
}

#[test]
fn remote_image_src_is_dropped() {
    let out = render("![pixel](https://tracker.example/p.gif)\n");
    assert!(!out.contains("tracker.example"), "remote image leaked: {out}");
    assert!(!out.contains("https://tracker"), "{out}");
}

#[test]
fn data_uri_image_is_dropped() {
    let out = render("![x](data:image/png;base64,iVBORw0KGgo=)\n");
    assert!(!out.contains("data:image"), "data uri leaked: {out}");
}

#[test]
fn file_uri_link_is_stripped() {
    let out = render("[secret](file:///etc/passwd)\n");
    assert!(!out.contains("file:"), "file scheme leaked: {out}");
    assert!(!out.contains("/etc/passwd"), "{out}");
}

#[test]
fn raw_styled_paragraph_does_not_produce_a_live_styled_tag() {
    let out = render("<p style=\"position:fixed\">x</p>\n");
    assert!(!out.contains("<p style"), "live styled tag leaked: {out}");
    assert!(out.contains("&lt;p"), "expected escaped text: {out}");
}

#[test]
fn neutralize_and_rewrite_turns_html_into_text_and_rewrites_destinations() {
    let image = |d: &str| MdEvent::Image { link_type: LinkType::Inline, dest: d.into(), title: String::new(), id: String::new() };
    let events = vec![
        MdEvent::Html("<script>x</script>".into()),
        MdEvent::InlineHtml("<b>".into()),
        image("./maps/level 1.png"),
        image("https://evil.example/track.png"),
        MdEvent::Link { link_type: LinkType::Inline, dest: "part2.md".into(), title: "t".into(), id: String::new() },
        MdEvent::Link { link_type: LinkType::Inline, dest: "https://example.com".into(), title: String::new(), id: String::new() },
        MdEvent::Other(Event::SoftBreak),
    ];
    let out = neutralize_and_rewrite(events, "core", "qfg1-ega");
    assert_eq!(out.len(), 7);
    assert!(matches!(&out[0], MdEvent::Text(t) if t == "<script>x</script>"));
    assert!(matches!(&out[1], MdEvent::Text(t) if t == "<b>"));
    assert!(matches!(&out[2], MdEvent::Image { dest, .. } if dest == "reliquaint-content://core/qfg1-ega/maps/level%201.png"));
    assert!(matches!(&out[3], MdEvent::Image { dest, .. } if dest.is_empty()));
    assert!(matches!(&out[4], MdEvent::Link { dest, title, .. } if dest == "reliquaint-nav://core/qfg1-ega/part2.md" && title == "t"));
    assert!(matches!(&out[5], MdEvent::Link { dest, .. } if dest == "https://example.com"));
    assert!(matches!(&out[6], MdEvent::Other(Event::SoftBreak)));
}
