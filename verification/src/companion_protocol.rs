//! Serving companion files to the renderer: which requests are allowed
//! (a relative path that stays inside the game's companion directory, with
//! an image or Markdown extension), and whether an image's bytes match its
//! extension. Resolving and reading the files is the caller's work.

use vstd::prelude::*;
use crate::paths::{components, extension, extension_spec};
use crate::text::{chars_of, lower_seq, lower_vec, seq_eq, split_exec, split_on, views};

verus! {

#[derive(Debug, Clone, Copy, PartialEq, Eq, Structural)]
pub enum ImageError {
    NotFound,
    OutsideBoundary,
    BadFormat,
    Io,
}

#[derive(Debug, Clone, Copy, PartialEq, Eq, Structural)]
pub enum Format {
    Png,
    Jpeg,
    Gif,
    Webp,
}

pub open spec fn format_of_ext(ext: Seq<char>) -> Option<Format> {
    let e = lower_seq(ext);
    if e == "png"@ {
        Some(Format::Png)
    } else if e == "jpg"@ || e == "jpeg"@ {
        Some(Format::Jpeg)
    } else if e == "gif"@ {
        Some(Format::Gif)
    } else if e == "webp"@ {
        Some(Format::Webp)
    } else {
        None
    }
}

fn eq_lit(v: &Vec<char>, lit: &str) -> (r: bool)
    ensures
        r == (v@ == lit@),
{
    let l = chars_of(lit);
    seq_eq(v.as_slice(), l.as_slice())
}

pub open spec fn starts_with_bytes(b: Seq<u8>, p: Seq<u8>) -> bool {
    p.len() <= b.len() && b.take(p.len() as int) == p
}

pub open spec fn magic_ok(f: Format, b: Seq<u8>) -> bool {
    match f {
        Format::Png => starts_with_bytes(b, seq![0x89u8, 0x50u8, 0x4Eu8, 0x47u8]),
        Format::Jpeg => starts_with_bytes(b, seq![0xFFu8, 0xD8u8, 0xFFu8]),
        Format::Gif => starts_with_bytes(b, seq![0x47u8, 0x49u8, 0x46u8, 0x38u8, 0x37u8, 0x61u8])
            || starts_with_bytes(b, seq![0x47u8, 0x49u8, 0x46u8, 0x38u8, 0x39u8, 0x61u8]),
        Format::Webp => b.len() >= 12 && b.subrange(0, 4) == seq![0x52u8, 0x49u8, 0x46u8, 0x46u8]
            && b.subrange(8, 12) == seq![0x57u8, 0x45u8, 0x42u8, 0x50u8],
    }
}

pub open spec fn mime_of(f: Format) -> Seq<char> {
    match f {
        Format::Png => "image/png"@,
        Format::Jpeg => "image/jpeg"@,
        Format::Gif => "image/gif"@,
        Format::Webp => "image/webp"@,
    }
}

fn bytes_start_with(b: &[u8], p: &[u8]) -> (r: bool)
    ensures
        r == starts_with_bytes(b@, p@),
{
    if p.len() > b.len() {
        return false;
    }
    let mut i: usize = 0;
    while i < p.len()
        invariant
            p@.len() <= b@.len(),
            i <= p@.len(),
            forall|k: int| 0 <= k < i ==> b@[k] == p@[k],
        decreases p@.len() - i,
    {
        if b[i] != p[i] {
            assert(b@.take(p@.len() as int)[i as int] != p@[i as int]);
            return false;
        }
        i = i + 1;
    }
    assert(b@.take(p@.len() as int) =~= p@);
    true
}

impl Format {
    /// The format an extension names (in any case), if it is an image.
    pub fn from_ext(ext: &str) -> (r: Option<Format>)
        ensures
            r == format_of_ext(ext@),
    {
        let e = lower_vec(chars_of(ext).as_slice());
        if eq_lit(&e, "png") {
            Some(Format::Png)
        } else if eq_lit(&e, "jpg") || eq_lit(&e, "jpeg") {
            Some(Format::Jpeg)
        } else if eq_lit(&e, "gif") {
            Some(Format::Gif)
        } else if eq_lit(&e, "webp") {
            Some(Format::Webp)
        } else {
            None
        }
    }

    /// The MIME type served for the format.
    pub fn mime(self) -> (r: &'static str)
        ensures
            r@ == mime_of(self),
    {
        match self {
            Format::Png => "image/png",
            Format::Jpeg => "image/jpeg",
            Format::Gif => "image/gif",
            Format::Webp => "image/webp",
        }
    }

    /// Do the leading bytes of `b` carry the format's signature?
    pub fn matches_magic(self, b: &[u8]) -> (r: bool)
        ensures
            r == magic_ok(self, b@),
    {
        match self {
            Format::Png => {
                let m: [u8; 4] = [0x89, 0x50, 0x4E, 0x47];
                bytes_start_with(b, &m)
            },
            Format::Jpeg => {
                let m: [u8; 3] = [0xFF, 0xD8, 0xFF];
                bytes_start_with(b, &m)
            },
            Format::Gif => {
                let a: [u8; 6] = [0x47, 0x49, 0x46, 0x38, 0x37, 0x61];
                let c: [u8; 6] = [0x47, 0x49, 0x46, 0x38, 0x39, 0x61];
                bytes_start_with(b, &a) || bytes_start_with(b, &c)
            },
            Format::Webp => {
                if b.len() < 12 {
                    return false;
                }
                let riff = b[0] == 0x52 && b[1] == 0x49 && b[2] == 0x46 && b[3] == 0x46;
                let webp = b[8] == 0x57 && b[9] == 0x45 && b[10] == 0x42 && b[11] == 0x50;
                assert(riff == (b@.subrange(0, 4) == seq![0x52u8, 0x49u8, 0x46u8, 0x46u8])) by {
                    if riff {
                        assert(b@.subrange(0, 4) =~= seq![0x52u8, 0x49u8, 0x46u8, 0x46u8]);
                    } else {
                        if b@.subrange(0, 4) == seq![0x52u8, 0x49u8, 0x46u8, 0x46u8] {
                            assert(b@.subrange(0, 4)[0] == b@[0]);
                            assert(b@.subrange(0, 4)[1] == b@[1]);
                            assert(b@.subrange(0, 4)[2] == b@[2]);
                            assert(b@.subrange(0, 4)[3] == b@[3]);
                        }
                    }
                }
                assert(webp == (b@.subrange(8, 12) == seq![0x57u8, 0x45u8, 0x42u8, 0x50u8])) by {
                    if webp {
                        assert(b@.subrange(8, 12) =~= seq![0x57u8, 0x45u8, 0x42u8, 0x50u8]);
                    } else {
                        if b@.subrange(8, 12) == seq![0x57u8, 0x45u8, 0x42u8, 0x50u8] {
                            assert(b@.subrange(8, 12)[0] == b@[8]);
                            assert(b@.subrange(8, 12)[1] == b@[9]);
                            assert(b@.subrange(8, 12)[2] == b@[10]);
                            assert(b@.subrange(8, 12)[3] == b@[11]);
                        }
                    }
                }
                riff && webp
            },
        }
    }
}

/// Does every component of the relative path `rel` stay put or go down:
/// no root, and no `..`?
pub open spec fn stays_inside(rel: Seq<char>) -> bool {
    !(rel.len() > 0 && rel[0] == '/') && forall|i: int| 0 <= i < split_on(rel, '/').len() ==> #[trigger] split_on(rel, '/')[i] != seq!['.', '.']
}

/// Is `rel` a relative path that cannot leave its base directory?
pub fn within_boundary(rel: &str) -> (r: bool)
    ensures
        r == stays_inside(rel@),
{
    let cs = chars_of(rel);
    if cs.len() > 0 && cs[0] == '/' {
        return false;
    }
    let pieces = split_exec(cs.as_slice(), '/');
    let mut i: usize = 0;
    while i < pieces.len()
        invariant
            i <= pieces@.len(),
            views(pieces@) == split_on(rel@, '/'),
            forall|k: int| 0 <= k < i ==> #[trigger] split_on(rel@, '/')[k] != seq!['.', '.'],
        decreases pieces@.len() - i,
    {
        let p = &pieces[i];
        assert(views(pieces@)[i as int] == p@);
        if p.len() == 2 && p[0] == '.' && p[1] == '.' {
            assert(p@ =~= seq!['.', '.']);
            return false;
        }
        assert(p@ != seq!['.', '.']);
        i = i + 1;
    }
    true
}

/// The outcome of checking an image request before the file is looked up:
/// its format by extension, and that the path stays inside the companion
/// directory.
pub open spec fn image_request_spec(rel: Seq<char>) -> Result<Format, ImageError> {
    match extension_spec(rel) {
        None => Err(ImageError::BadFormat),
        Some(e) => match format_of_ext(e) {
            None => Err(ImageError::BadFormat),
            Some(f) => if stays_inside(rel) {
                Ok(f)
            } else {
                Err(ImageError::OutsideBoundary)
            },
        },
    }
}

pub fn image_request(rel_path: &str) -> (r: Result<Format, ImageError>)
    ensures
        r == image_request_spec(rel_path@),
{
    let format = match extension(rel_path) {
        None => {
            return Err(ImageError::BadFormat);
        },
        Some(e) => match Format::from_ext(e.as_str()) {
            None => {
                return Err(ImageError::BadFormat);
            },
            Some(f) => f,
        },
    };
    if !within_boundary(rel_path) {
        return Err(ImageError::OutsideBoundary);
    }
    Ok(format)
}

/// Do the components of `base` begin those of `p` (`Path::starts_with`)?
pub open spec fn path_under(p: Seq<char>, base: Seq<char>) -> bool {
    let a = components(p);
    let b = components(base);
    b.len() <= a.len() && a.take(b.len() as int) == b
}

pub fn path_starts_with(p: &str, base: &str) -> (r: bool)
    ensures
        r == path_under(p@, base@),
{
    let a = crate::paths::components_exec(p);
    let b = crate::paths::components_exec(base);
    if b.len() > a.len() {
        return false;
    }
    let mut k: usize = 0;
    while k < b.len()
        invariant
            b@.len() <= a@.len(),
            views(a@) == components(p@),
            views(b@) == components(base@),
            k <= b@.len(),
            forall|j: int| 0 <= j < k ==> views(a@)[j] == views(b@)[j],
        decreases b@.len() - k,
    {
        assert(views(a@)[k as int] == a@[k as int]@);
        assert(views(b@)[k as int] == b@[k as int]@);
        if !seq_eq(a[k].as_slice(), b[k].as_slice()) {
            assert(views(a@).take(b@.len() as int)[k as int] != views(b@)[k as int]);
            return false;
        }
        k = k + 1;
    }
    assert(views(a@).take(b@.len() as int) =~= views(b@));
    true
}

/// A resolved path known to lie under a resolved companion directory.
/// Only [`resolve_within`] makes one, so a file is read through it only
/// after its containment was checked.
#[derive(Debug)]
pub struct ContainedPath {
    path: String,
    base: String,
}

impl ContainedPath {
    #[verifier::type_invariant]
    spec fn contained(&self) -> bool {
        path_under(self.path@, self.base@)
    }

    /// The resolved path.
    pub closed spec fn path_view(&self) -> Seq<char> {
        self.path@
    }

    /// The resolved directory it lies under.
    pub closed spec fn base_view(&self) -> Seq<char> {
        self.base@
    }

    /// The resolved path, to read the file at.
    pub fn path(&self) -> (r: &str)
        ensures
            r@ == self.path_view(),
    {
        self.path.as_str()
    }
}

/// The check made before a companion file is read: its resolved path
/// `canon` must lie under the resolved companion directory `canon_base`
/// (a symbolic link may lead elsewhere).
pub fn resolve_within(canon: &str, canon_base: &str) -> (r: Result<ContainedPath, ImageError>)
    ensures
        match r {
            Ok(c) => path_under(canon@, canon_base@) && c.path_view() == canon@ && c.base_view() == canon_base@,
            Err(e) => !path_under(canon@, canon_base@) && e == ImageError::OutsideBoundary,
        },
{
    if !path_starts_with(canon, canon_base) {
        return Err(ImageError::OutsideBoundary);
    }
    Ok(ContainedPath { path: crate::text::owned(canon), base: crate::text::owned(canon_base) })
}

/// Serve the bytes read from `target` as an image whose request passed
/// [`image_request`]: they must carry the format's signature. Returns the
/// bytes and their MIME type.
pub fn image_bytes(format: Format, target: &ContainedPath, bytes: Vec<u8>) -> (r: Result<(Vec<u8>, &'static str), ImageError>)
    ensures
        match r {
            Ok((b, mime)) => path_under(target.path_view(), target.base_view()) && magic_ok(format, bytes@)
                && b@ == bytes@ && mime@ == mime_of(format),
            Err(e) => !magic_ok(format, bytes@) && e == ImageError::BadFormat,
        },
{
    proof {
        use_type_invariant(target);
    }
    if !format.matches_magic(bytes.as_slice()) {
        return Err(ImageError::BadFormat);
    }
    Ok((bytes, format.mime()))
}

/// The outcome of checking a Markdown request before the file is looked
/// up: an `.md` extension (any case), and a path that stays inside.
pub open spec fn markdown_request_spec(rel: Seq<char>) -> Result<(), ImageError> {
    if !(extension_spec(rel) matches Some(e) && lower_seq(e) == "md"@) {
        Err(ImageError::BadFormat)
    } else if !stays_inside(rel) {
        Err(ImageError::OutsideBoundary)
    } else {
        Ok(())
    }
}

pub fn markdown_request(rel_path: &str) -> (r: Result<(), ImageError>)
    ensures
        r == markdown_request_spec(rel_path@),
{
    let is_md = match extension(rel_path) {
        Some(e) => {
            let l = lower_vec(chars_of(e.as_str()).as_slice());
            eq_lit(&l, "md")
        },
        None => false,
    };
    if !is_md {
        return Err(ImageError::BadFormat);
    }
    if !within_boundary(rel_path) {
        return Err(ImageError::OutsideBoundary);
    }
    Ok(())
}

} // verus!
