use reliquaint::companion::{classify, derive_title, CompanionKind};

#[test]
fn classify_recognizes_markdown_and_images() {
    assert_eq!(classify("walkthrough.md"), Some(CompanionKind::Markdown));
    assert_eq!(classify("map.png"), Some(CompanionKind::Image));
    assert_eq!(classify("shot.JPG"), Some(CompanionKind::Image));
    assert_eq!(classify("shot.jpeg"), Some(CompanionKind::Image));
    assert_eq!(classify("anim.gif"), Some(CompanionKind::Image));
    assert_eq!(classify("pic.webp"), Some(CompanionKind::Image));
}

#[test]
fn classify_excludes_svg_and_unknown() {
    assert_eq!(classify("diagram.svg"), None);
    assert_eq!(classify("notes.txt"), None);
    assert_eq!(classify("README"), None);
}

#[test]
fn derive_title_strips_numeric_prefix() {
    assert_eq!(derive_title("01-walkthrough.md"), "Walkthrough");
    assert_eq!(derive_title("02-mid-game.md"), "Mid Game");
}

#[test]
fn derive_title_handles_no_prefix() {
    assert_eq!(derive_title("boss-fight-tips.md"), "Boss Fight Tips");
    assert_eq!(derive_title("overview.md"), "Overview");
}

#[test]
fn derive_title_treats_underscores_as_spaces() {
    assert_eq!(derive_title("03_secret_areas.md"), "Secret Areas");
}

#[test]
fn numeric_prefix_requires_separator() {
    assert_eq!(derive_title("1992.md"), "1992");
}
