use reliquaint::companion_protocol::{
    image_bytes, image_request, markdown_request, path_starts_with, resolve_within, within_boundary, Format, ImageError,
};

#[test]
fn image_requests_check_extension_then_boundary() {
    assert_eq!(image_request("maps/x.PNG"), Ok(Format::Png));
    assert_eq!(image_request("a.jpeg"), Ok(Format::Jpeg));
    assert_eq!(image_request("a.svg"), Err(ImageError::BadFormat));
    assert_eq!(image_request("noext"), Err(ImageError::BadFormat));
    assert_eq!(image_request("../x.png"), Err(ImageError::OutsideBoundary));
    assert_eq!(image_request("/etc/x.png"), Err(ImageError::OutsideBoundary));
}

#[test]
fn boundary_allows_plain_and_dot_segments() {
    assert!(within_boundary("a/./b.md"));
    assert!(!within_boundary("a/../../b.md"));
    assert!(path_starts_with("/a/b/c", "/a/b"));
    assert!(!path_starts_with("/a/bc", "/a/b"));
}

#[test]
fn resolved_image_needs_containment_and_magic() {
    let png = vec![0x89, 0x50, 0x4E, 0x47, 0x0D, 0x0A];
    let inside = resolve_within("/c/g/x.png", "/c/g").unwrap();
    assert_eq!(image_bytes(Format::Png, &inside, png.clone()), Ok((png.clone(), "image/png")));
    assert_eq!(resolve_within("/elsewhere/x.png", "/c/g").unwrap_err(), ImageError::OutsideBoundary);
    assert_eq!(image_bytes(Format::Gif, &inside, png), Err(ImageError::BadFormat));
    let webp = vec![0x52, 0x49, 0x46, 0x46, 0, 0, 0, 0, 0x57, 0x45, 0x42, 0x50];
    assert!(Format::Webp.matches_magic(&webp));
    assert!(Format::Gif.matches_magic(b"GIF89a..."));
    assert_eq!(Format::Jpeg.mime(), "image/jpeg");
}

#[test]
fn markdown_requests() {
    assert_eq!(markdown_request("01-walkthrough.MD"), Ok(()));
    assert_eq!(markdown_request("a.txt"), Err(ImageError::BadFormat));
    assert_eq!(markdown_request("../a.md"), Err(ImageError::OutsideBoundary));
    assert_eq!(resolve_within("/c/g/a.md", "/c/g").unwrap().path(), "/c/g/a.md");
    assert_eq!(resolve_within("/x/a.md", "/c/g").unwrap_err(), ImageError::OutsideBoundary);
}
