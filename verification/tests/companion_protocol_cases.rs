use reliquaint::companion_protocol::{
    image_bytes, image_request, markdown_request, resolve_within, within_boundary, Format, ImageError,
};

const PNG_MAGIC: &[u8] = &[0x89, 0x50, 0x4E, 0x47, 0x0D, 0x0A, 0x1A, 0x0A];
const JPEG_MAGIC: &[u8] = &[0xFF, 0xD8, 0xFF, 0xE0];

/// What serving `rel` from the companion directory `/c` gives when the file
/// resolves to `/c/<rel>` and holds `bytes`.
fn serve(rel: &str, bytes: &[u8]) -> Result<(Vec<u8>, &'static str), ImageError> {
    let format = image_request(rel)?;
    let target = resolve_within(&format!("/c/{rel}"), "/c")?;
    image_bytes(format, &target, bytes.to_vec())
}

#[test]
fn serves_legitimate_image_with_mime() {
    let (bytes, mime) = serve("maps/spielburg.png", PNG_MAGIC).unwrap();
    assert_eq!(mime, "image/png");
    assert_eq!(bytes, PNG_MAGIC);
}

#[test]
fn serves_root_level_image() {
    let (_, mime) = serve("cover.jpg", JPEG_MAGIC).unwrap();
    assert_eq!(mime, "image/jpeg");
}

#[test]
fn rejects_parent_dir_traversal() {
    assert_eq!(image_request("../../etc/passwd.png"), Err(ImageError::OutsideBoundary));
}

#[test]
fn rejects_absolute_path() {
    assert_eq!(image_request("/etc/passwd.png"), Err(ImageError::OutsideBoundary));
}

#[test]
fn rejects_unknown_extension() {
    assert_eq!(image_request("diagram.svg"), Err(ImageError::BadFormat));
}

#[test]
fn rejects_magic_byte_mismatch() {
    assert_eq!(image_request("fake.png"), Ok(Format::Png));
    assert_eq!(serve("fake.png", JPEG_MAGIC), Err(ImageError::BadFormat));
}

#[test]
fn resolve_within_accepts_contained_path_and_rejects_escape() {
    assert!(within_boundary("sub/guide.md"));
    assert!(!within_boundary("../escape.md"));
    assert!(!within_boundary("/etc/passwd"));
}

#[test]
fn read_markdown_reads_contained_md() {
    assert_eq!(markdown_request("01-overview.md"), Ok(()));
    assert_eq!(resolve_within("/c/01-overview.md", "/c").unwrap().path(), "/c/01-overview.md");
}

#[test]
fn read_markdown_rejects_non_md_extension() {
    assert_eq!(markdown_request("maps/spielburg.png"), Err(ImageError::BadFormat));
}

#[test]
fn read_markdown_rejects_traversal() {
    assert_eq!(markdown_request("../escape.md"), Err(ImageError::OutsideBoundary));
}

#[test]
fn rejects_symlink_escape() {
    // `/c/escape.png` is a link whose resolved path lies outside `/c`.
    assert_eq!(image_request("escape.png"), Ok(Format::Png));
    assert_eq!(resolve_within("/etc/passwd", "/c").unwrap_err(), ImageError::OutsideBoundary);
}
