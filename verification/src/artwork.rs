//! Choosing one display image for a game: from its install directory
//! (named cover art first, else the first loose image by name), or the
//! artwork its tap ships, kept inside the tap's root.

use vstd::prelude::*;
use crate::companion_protocol::{path_starts_with, path_under, stays_inside, within_boundary};
use crate::discovery::{is_image_name, listed_file};
use crate::paths::{join, join_spec};
use crate::text::{seq_lt, seq_lt_exec, chars_of, owned, str_eq};

verus! {

/// The named artwork files looked for first, in priority order.
pub open spec fn named_art() -> Seq<Seq<char>> {
    seq!["cover.png"@, "cover.jpg"@, "icon.png"@, "icon.jpg"@, "box.png"@, "box.jpg"@]
}

fn named_art_at(q: usize) -> (r: &'static str)
    requires
        q < 6,
    ensures
        r@ == named_art()[q as int],
{
    if q == 0 {
        "cover.png"
    } else if q == 1 {
        "cover.jpg"
    } else if q == 2 {
        "icon.png"
    } else if q == 3 {
        "icon.jpg"
    } else if q == 4 {
        "box.png"
    } else {
        "box.jpg"
    }
}

/// Does the path name an image taken as loose cover art (extension `png`,
/// `jpg`, `jpeg` or `bmp`, in any case)?
pub fn is_loose_image(path: &str) -> (r: bool)
    ensures
        r == is_image_name(path@),
{
    match crate::paths::extension(path) {
        Some(e) => {
            let l = crate::text::string_from(crate::text::lower_vec(chars_of(e.as_str()).as_slice()).as_slice());
            str_eq(l.as_str(), "png") || str_eq(l.as_str(), "jpg") || str_eq(l.as_str(), "jpeg") || str_eq(
                l.as_str(),
                "bmp",
            )
        },
        None => false,
    }
}

pub open spec fn first_named_art(es: Seq<(String, bool)>, q: int) -> Option<Seq<char>>
    decreases 6 - q,
{
    if q >= 6 || q < 0 {
        None
    } else if listed_file(es, named_art()[q]) {
        Some(named_art()[q])
    } else {
        first_named_art(es, q + 1)
    }
}

/// The least loose image file name (in `str` order) among the listed
/// entries.
pub open spec fn least_loose(es: Seq<(String, bool)>) -> Option<Seq<char>>
    decreases es.len(),
{
    if es.len() == 0 {
        None
    } else {
        let prev = least_loose(es.drop_last());
        let n = es.last().0@;
        if es.last().1 && is_image_name(n) {
            match prev {
                None => Some(n),
                Some(p) => if seq_lt(n, p) {
                    Some(n)
                } else {
                    Some(p)
                },
            }
        } else {
            prev
        }
    }
}

pub open spec fn detect_spec(dir: Seq<char>, es: Seq<(String, bool)>) -> Option<Seq<char>> {
    match first_named_art(es, 0) {
        Some(n) => Some(join_spec(dir, n)),
        None => match least_loose(es) {
            Some(n) => Some(join_spec(dir, n)),
            None => None,
        },
    }
}

fn is_listed(es: &Vec<(String, bool)>, n: &str) -> (r: bool)
    ensures
        r == listed_file(es@, n@),
{
    let mut k: usize = 0;
    while k < es.len()
        invariant
            k <= es@.len(),
            forall|j: int| 0 <= j < k ==> !((#[trigger] es@[j]).0@ == n@ && es@[j].1),
        decreases es@.len() - k,
    {
        if es[k].1 && str_eq(es[k].0.as_str(), n) {
            return true;
        }
        k = k + 1;
    }
    false
}

/// The display image of an installed game's directory, from its listing
/// (`entries` pairs each name with whether it is a regular file): a named
/// file (`cover.png`, `cover.jpg`, `icon.png`, `icon.jpg`, `box.png`,
/// `box.jpg`, in that order), else the loose image that sorts first.
pub fn detect_in_dir(dir: &str, entries: &Vec<(String, bool)>) -> (r: Option<String>)
    ensures
        match r {
            Some(p) => detect_spec(dir@, entries@) == Some(p@),
            None => detect_spec(dir@, entries@) is None,
        },
{
    let mut q: usize = 0;
    while q < 6
        invariant
            q <= 6,
            first_named_art(entries@, 0) == first_named_art(entries@, q as int),
        decreases 6 - q,
    {
        let n = named_art_at(q);
        if is_listed(entries, n) {
            return Some(join(dir, n));
        }
        q = q + 1;
    }
    let mut best: Option<usize> = None;
    let mut k: usize = 0;
    while k < entries.len()
        invariant
            k <= entries@.len(),
            match best {
                Some(b) => b < k && least_loose(entries@.take(k as int)) == Some(entries@[b as int].0@),
                None => least_loose(entries@.take(k as int)) is None,
            },
        decreases entries@.len() - k,
    {
        assert(entries@.take(k + 1).drop_last() =~= entries@.take(k as int));
        assert(entries@.take(k + 1).last() == entries@[k as int]);
        if entries[k].1 && is_loose_image(entries[k].0.as_str()) {
            match best {
                None => {
                    best = Some(k);
                },
                Some(b) => {
                    let a = chars_of(entries[k].0.as_str());
                    let c = chars_of(entries[b].0.as_str());
                    if seq_lt_exec(a.as_slice(), c.as_slice()) {
                        best = Some(k);
                    }
                },
            }
        }
        k = k + 1;
    }
    assert(entries@.take(entries@.len() as int) =~= entries@);
    match best {
        Some(b) => Some(join(dir, entries[b].0.as_str())),
        None => None,
    }
}

pub open spec fn resolve_art_spec(rel: Seq<char>, resolved: Option<(Seq<char>, Seq<char>)>, is_file: bool) -> Option<Seq<char>> {
    if !stays_inside(rel) {
        None
    } else {
        match resolved {
            None => None,
            Some((canon, base)) => if path_under(canon, base) && is_file {
                Some(canon)
            } else {
                None
            },
        }
    }
}

pub open spec fn resolved_view(r: Option<(String, String)>) -> Option<(Seq<char>, Seq<char>)> {
    match r {
        Some((a, b)) => Some((a@, b@)),
        None => None,
    }
}

/// Artwork named by a path relative to a base directory: the path may not
/// leave the base (no root, no `..`); `resolved` is the canonical path of
/// the file and of the base (`None` when either could not be resolved),
/// and the file must still lie under the base and be a regular file.
pub fn resolve_art_in(rel_path: &str, resolved: Option<(String, String)>, is_file: bool) -> (r: Option<String>)
    ensures
        match r {
            Some(p) => resolve_art_spec(rel_path@, resolved_view(resolved), is_file) == Some(p@),
            None => resolve_art_spec(rel_path@, resolved_view(resolved), is_file) is None,
        },
{
    if !within_boundary(rel_path) {
        return None;
    }
    match resolved {
        None => None,
        Some((canon, base)) => {
            if path_starts_with(canon.as_str(), base.as_str()) && is_file {
                Some(canon)
            } else {
                None
            }
        },
    }
}

/// The artwork a tap ships, resolved as [`resolve_art_in`] against the
/// tap's root.
pub fn resolve_tap_art(rel_path: &str, resolved: Option<(String, String)>, is_file: bool) -> (r: Option<String>)
    ensures
        match r {
            Some(p) => resolve_art_spec(rel_path@, resolved_view(resolved), is_file) == Some(p@),
            None => resolve_art_spec(rel_path@, resolved_view(resolved), is_file) is None,
        },
{
    resolve_art_in(rel_path, resolved, is_file)
}

} // verus!
