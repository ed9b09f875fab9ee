//! Finding first-generation manifests and installed games. Listing
//! directories and parsing files is the caller's work; it hands over what
//! it listed and parsed, and these functions choose.

use vstd::prelude::*;
use crate::manifest::{Manifest, ManifestError};
use crate::order::{key_order, key_views, sort_keyed, strip_keys, Key, SortKey};
use crate::paths::{extension, extension_spec, join, join_spec};
use crate::text::{chars_of, ends_with, ends_with_exec, lower_seq, lower_vec, owned, str_eq, string_views};

verus! {

broadcast use vstd::seq_lib::group_to_multiset_ensures;

/// Is a file in a manifests directory a manifest: a `.toml` file that is
/// neither `.gitkeep` nor switched off with a `.disabled` suffix?
pub open spec fn is_catalog_file(name: Seq<char>) -> bool {
    name != ".gitkeep"@ && !ends_with(name, ".disabled"@) && extension_spec(name) == Some("toml"@)
}

pub fn is_catalog_file_name(name: &str) -> (r: bool)
    ensures
        r == is_catalog_file(name@),
{
    if str_eq(name, ".gitkeep") {
        return false;
    }
    let cs = chars_of(name);
    let dis = chars_of(".disabled");
    if ends_with_exec(cs.as_slice(), dis.as_slice()) {
        return false;
    }
    match extension(name) {
        Some(e) => str_eq(e.as_str(), "toml"),
        None => false,
    }
}

pub open spec fn dos_manifest_dirs(root: Seq<char>, dos: Seq<(String, bool)>) -> Seq<Seq<char>>
    decreases dos.len(),
{
    if dos.len() == 0 {
        Seq::empty()
    } else if dos.last().1 {
        dos_manifest_dirs(root, dos.drop_last()).push(
            join_spec(join_spec(join_spec(root, "dos"@), dos.last().0@), "manifests"@),
        )
    } else {
        dos_manifest_dirs(root, dos.drop_last())
    }
}

/// The directories to scan for manifests: `dos/<collection>/manifests` for
/// each entry of `dos/` (in listing order) that has one, then
/// `amiga/manifests`. `dos_entries` pairs each name listed in `dos/` with
/// whether its `manifests` is a directory.
pub fn manifest_scan_dirs(repo_root: &str, dos_entries: &Vec<(String, bool)>) -> (r: Vec<String>)
    ensures
        string_views(r@) == dos_manifest_dirs(repo_root@, dos_entries@).push(join_spec(repo_root@, "amiga/manifests"@)),
{
    let mut r: Vec<String> = Vec::new();
    let dos = join(repo_root, "dos");
    let mut i: usize = 0;
    while i < dos_entries.len()
        invariant
            i <= dos_entries@.len(),
            dos@ == join_spec(repo_root@, "dos"@),
            string_views(r@) == dos_manifest_dirs(repo_root@, dos_entries@.take(i as int)),
        decreases dos_entries@.len() - i,
    {
        assert(dos_entries@.take(i + 1).drop_last() =~= dos_entries@.take(i as int));
        if dos_entries[i].1 {
            let d = join(dos.as_str(), dos_entries[i].0.as_str());
            let m = join(d.as_str(), "manifests");
            r.push(m);
        }
        i = i + 1;
        assert(string_views(r@) =~= dos_manifest_dirs(repo_root@, dos_entries@.take(i as int)));
    }
    assert(dos_entries@.take(dos_entries@.len() as int) =~= dos_entries@);
    r.push(join(repo_root, "amiga/manifests"));
    assert(string_views(r@) =~= dos_manifest_dirs(repo_root@, dos_entries@).push(join_spec(repo_root@, "amiga/manifests"@)));
    r
}

pub open spec fn found_ok(found: Seq<(String, Result<Manifest, ManifestError>)>) -> Seq<(Seq<char>, Manifest)>
    decreases found.len(),
{
    if found.len() == 0 {
        Seq::empty()
    } else {
        match found.last().1 {
            Ok(m) => found_ok(found.drop_last()).push((found.last().0@, m)),
            Err(_) => found_ok(found.drop_last()),
        }
    }
}

pub open spec fn found_err(found: Seq<(String, Result<Manifest, ManifestError>)>) -> Seq<Seq<char>>
    decreases found.len(),
{
    if found.len() == 0 {
        Seq::empty()
    } else {
        match found.last().1 {
            Ok(_) => found_err(found.drop_last()),
            Err(_) => found_err(found.drop_last()).push(found.last().0@),
        }
    }
}

pub open spec fn catalog_views(v: Seq<(String, Manifest)>) -> Seq<(Seq<char>, Manifest)> {
    v.map_values(|e: (String, Manifest)| (e.0@, e.1))
}

/// The catalog from the manifests found, in scan order: each path with
/// its parsed manifest. The files that failed come back apart, with their
/// errors, for the caller to warn about.
pub fn discover_catalog(found: Vec<(String, Result<Manifest, ManifestError>)>) -> (r: (
    Vec<(String, Manifest)>,
    Vec<(String, ManifestError)>,
))
    ensures
        catalog_views(r.0@) == found_ok(found@),
        r.1@.map_values(|e: (String, ManifestError)| e.0@) == found_err(found@),
{
    let ghost orig = found@;
    let n = found.len();
    let mut found = found;
    let mut ok: Vec<(String, Manifest)> = Vec::new();
    let mut bad: Vec<(String, ManifestError)> = Vec::new();
    let mut i: usize = 0;
    assert(orig.skip(0) =~= orig);
    while found.len() > 0
        invariant
            n == orig.len(),
            i + found@.len() == n,
            found@ == orig.skip(i as int),
            catalog_views(ok@) == found_ok(orig.take(i as int)),
            bad@.map_values(|e: (String, ManifestError)| e.0@) == found_err(orig.take(i as int)),
        decreases found@.len(),
    {
        let item = found.remove(0);
        assert(item == orig[i as int]);
        assert(orig.take(i + 1).drop_last() =~= orig.take(i as int));
        assert(found@ =~= orig.skip(i + 1));
        let (path, result) = item;
        match result {
            Ok(m) => {
                ok.push((path, m));
            },
            Err(e) => {
                bad.push((path, e));
            },
        }
        i = n - found.len();
        assert(catalog_views(ok@) =~= found_ok(orig.take(i as int)));
        assert(bad@.map_values(|e: (String, ManifestError)| e.0@) =~= found_err(orig.take(i as int)));
    }
    assert(orig.take(n as int) =~= orig);
    (ok, bad)
}

/// The first catalog entry whose manifest has id `id`.
pub fn find_by_id(catalog: Vec<(String, Manifest)>, id: &str) -> (r: Option<(String, Manifest)>)
    ensures
        match r {
            Some(found) => exists|i: int| 0 <= i < catalog@.len() && found == catalog@[i] && catalog@[i].1.id@ == id@
                && forall|j: int| 0 <= j < i ==> (#[trigger] catalog@[j]).1.id@ != id@,
            None => forall|j: int| 0 <= j < catalog@.len() ==> (#[trigger] catalog@[j]).1.id@ != id@,
        },
{
    let mut i: usize = 0;
    while i < catalog.len()
        invariant
            i <= catalog@.len(),
            forall|j: int| 0 <= j < i ==> (#[trigger] catalog@[j]).1.id@ != id@,
        decreases catalog@.len() - i,
    {
        if str_eq(catalog[i].1.id.as_str(), id) {
            let ghost before = catalog@;
            let mut catalog = catalog;
            let found = catalog.remove(i);
            assert(found == before[i as int]);
            return Some(found);
        }
        i = i + 1;
    }
    None
}

/// The artwork names looked for first, in priority order.
pub open spec fn artwork_names() -> Seq<Seq<char>> {
    seq![
        "cover.png"@, "cover.jpg"@, "cover.jpeg"@, "cover.bmp"@,
        "icon.png"@, "icon.jpg"@, "icon.jpeg"@, "icon.bmp"@,
        "box.png"@, "box.jpg"@, "box.jpeg"@, "box.bmp"@,
    ]
}

/// Is `n` listed as a regular file?
pub open spec fn listed_file(es: Seq<(String, bool)>, n: Seq<char>) -> bool {
    exists|k: int| 0 <= k < es.len() && (#[trigger] es[k]).0@ == n && es[k].1
}

/// Does the name carry an image extension (compared in lower case; the
/// extensions are ASCII, so ASCII case folding decides as Unicode does)?
pub open spec fn is_image_name(n: Seq<char>) -> bool {
    match extension_spec(n) {
        Some(e) => {
            let l = lower_seq(e);
            l == "png"@ || l == "jpg"@ || l == "jpeg"@ || l == "bmp"@
        },
        None => false,
    }
}

/// The first artwork name that is listed, if any.
pub open spec fn first_named(es: Seq<(String, bool)>, q: int) -> Option<Seq<char>>
    decreases 12 - q,
{
    if q >= 12 || q < 0 {
        None
    } else if listed_file(es, artwork_names()[q]) {
        Some(artwork_names()[q])
    } else {
        first_named(es, q + 1)
    }
}

/// The first listed regular file with an image extension.
pub open spec fn first_image(es: Seq<(String, bool)>, k: int) -> Option<Seq<char>>
    decreases es.len() - k,
{
    if k >= es.len() || k < 0 {
        None
    } else if es[k].1 && is_image_name(es[k].0@) {
        Some(es[k].0@)
    } else {
        first_image(es, k + 1)
    }
}

pub open spec fn find_artwork_spec(dir: Seq<char>, es: Seq<(String, bool)>) -> Option<Seq<char>> {
    match first_named(es, 0) {
        Some(n) => Some(join_spec(dir, n)),
        None => match first_image(es, 0) {
            Some(n) => Some(join_spec(dir, n)),
            None => None,
        },
    }
}

fn is_listed_file(es: &Vec<(String, bool)>, n: &str) -> (r: bool)
    ensures
        r == listed_file(es@, n@),
{
    let mut k: usize = 0;
    while k < es.len()
        invariant
            k <= es@.len(),
            forall|j: int| 0 <= j < k ==> !((#[trigger] es@[j]).0@ == n@ && es@[j].1),
        decreases es@.len() - k,
    {
        if es[k].1 && str_eq(es[k].0.as_str(), n) {
            return true;
        }
        k = k + 1;
    }
    false
}

fn is_image_file_name(n: &str) -> (r: bool)
    ensures
        r == is_image_name(n@),
{
    match extension(n) {
        Some(e) => {
            let l = crate::text::string_from(lower_vec(chars_of(e.as_str()).as_slice()).as_slice());
            str_eq(l.as_str(), "png") || str_eq(l.as_str(), "jpg") || str_eq(l.as_str(), "jpeg") || str_eq(
                l.as_str(),
                "bmp",
            )
        },
        None => false,
    }
}

fn artwork_name(q: usize) -> (r: &'static str)
    requires
        q < 12,
    ensures
        r@ == artwork_names()[q as int],
{
    if q == 0 { "cover.png" }
    else if q == 1 { "cover.jpg" }
    else if q == 2 { "cover.jpeg" }
    else if q == 3 { "cover.bmp" }
    else if q == 4 { "icon.png" }
    else if q == 5 { "icon.jpg" }
    else if q == 6 { "icon.jpeg" }
    else if q == 7 { "icon.bmp" }
    else if q == 8 { "box.png" }
    else if q == 9 { "box.jpg" }
    else if q == 10 { "box.jpeg" }
    else { "box.bmp" }
}

/// The artwork of a game directory, from its listing (`entries` pairs each
/// name with whether it is a regular file): the first of `cover`, `icon`,
/// `box` with extension `png`, `jpg`, `jpeg` or `bmp` that is there, else
/// the first listed image file.
pub fn find_artwork(game_dir: &str, entries: &Vec<(String, bool)>) -> (r: Option<String>)
    ensures
        match r {
            Some(p) => find_artwork_spec(game_dir@, entries@) == Some(p@),
            None => find_artwork_spec(game_dir@, entries@) is None,
        },
{
    let mut q: usize = 0;
    while q < 12
        invariant
            q <= 12,
            first_named(entries@, 0) == first_named(entries@, q as int),
        decreases 12 - q,
    {
        let n = artwork_name(q);
        if is_listed_file(entries, n) {
            return Some(join(game_dir, n));
        }
        q = q + 1;
    }
    let mut k: usize = 0;
    while k < entries.len()
        invariant
            k <= entries@.len(),
            first_named(entries@, 0) is None,
            first_image(entries@, 0) == first_image(entries@, k as int),
        decreases entries@.len() - k,
    {
        if entries[k].1 && is_image_file_name(entries[k].0.as_str()) {
            return Some(join(game_dir, entries[k].0.as_str()));
        }
        k = k + 1;
    }
    None
}

/// What was listed in the games directory for one entry: its name,
/// whether it is a directory, and whether it holds anything.
pub struct GameDirFacts {
    pub name: String,
    pub is_dir: bool,
    pub non_empty: bool,
}

/// The index of the last id equal to `n` (later manifests win, as in a
/// map filled in order).
pub open spec fn last_id(ids: Seq<Seq<char>>, n: Seq<char>) -> Option<int>
    decreases ids.len(),
{
    if ids.len() == 0 {
        None
    } else if ids.last() == n {
        Some(ids.len() - 1)
    } else {
        last_id(ids.drop_last(), n)
    }
}

/// The listed directories that are installed games: non-empty directories
/// named after a catalog id, each with the index of its manifest, in
/// listing order.
pub open spec fn installed_candidates(ids: Seq<Seq<char>>, dirs: Seq<GameDirFacts>) -> Seq<(int, int)>
    decreases dirs.len(),
{
    if dirs.len() == 0 {
        Seq::empty()
    } else {
        let d = dirs.last();
        let prev = installed_candidates(ids, dirs.drop_last());
        if d.is_dir && d.non_empty {
            match last_id(ids, d.name@) {
                Some(c) => prev.push((dirs.len() - 1, c)),
                None => prev,
            }
        } else {
            prev
        }
    }
}

pub open spec fn candidate_keys(ids: Seq<Seq<char>>, c: Seq<(int, int)>) -> Seq<Key> {
    Seq::new(c.len(), |i: int| (0i32, seq![ids[c[i].1]], i))
}

/// The installed games as (directory index, manifest index) pairs, sorted
/// by game id; equal ids keep listing order.
pub open spec fn select_installed_spec(ids: Seq<Seq<char>>, dirs: Seq<GameDirFacts>) -> Seq<(int, int)> {
    let c = installed_candidates(ids, dirs);
    let sorted = candidate_keys(ids, c).sort_by(key_order());
    Seq::new(sorted.len(), |q: int| c[sorted[q].2])
}

fn last_id_exec(ids: &Vec<String>, n: &str) -> (r: Option<usize>)
    ensures
        match r {
            Some(c) => last_id(string_views(ids@), n@) == Some(c as int),
            None => last_id(string_views(ids@), n@) is None,
        },
{
    let mut i: usize = ids.len();
    assert(string_views(ids@).take(i as int) =~= string_views(ids@));
    while i > 0
        invariant
            i <= ids@.len(),
            last_id(string_views(ids@), n@) == last_id(string_views(ids@).take(i as int), n@),
        decreases i,
    {
        let ghost t = string_views(ids@).take(i as int);
        assert(t.drop_last() =~= string_views(ids@).take(i - 1));
        assert(t.last() == ids@[i - 1]@);
        if str_eq(ids[i - 1].as_str(), n) {
            return Some(i - 1);
        }
        i = i - 1;
    }
    None
}

/// Which listed directories are installed games, with their manifests,
/// sorted by game id. `ids` holds the catalog's game ids in order.
pub fn select_installed(ids: &Vec<String>, dirs: &Vec<GameDirFacts>) -> (r: Vec<(usize, usize)>)
    ensures
        r@.len() == select_installed_spec(string_views(ids@), dirs@).len(),
        forall|q: int| 0 <= q < r@.len() ==> (#[trigger] r@[q]).0 as int == select_installed_spec(string_views(ids@), dirs@)[q].0
            && r@[q].1 as int == select_installed_spec(string_views(ids@), dirs@)[q].1,
{
    let ghost iv = string_views(ids@);
    let mut keyed: Vec<(SortKey, (usize, usize))> = Vec::new();
    let mut d: usize = 0;
    while d < dirs.len()
        invariant
            d <= dirs@.len(),
            iv == string_views(ids@),
            keyed@.len() == installed_candidates(iv, dirs@.take(d as int)).len(),
            forall|w: int| 0 <= w < keyed@.len() ==> {
                let c = installed_candidates(iv, dirs@.take(d as int));
                &&& (#[trigger] keyed@[w]).0.view() == candidate_keys(iv, c)[w]
                &&& keyed@[w].1.0 as int == c[w].0
                &&& keyed@[w].1.1 as int == c[w].1
                &&& 0 <= c[w].1 < iv.len()
            },
        decreases dirs@.len() - d,
    {
        let ghost prev = installed_candidates(iv, dirs@.take(d as int));
        assert(dirs@.take(d + 1).drop_last() =~= dirs@.take(d as int));
        assert(dirs@.take(d + 1).last() == dirs@[d as int]);
        let f = &dirs[d];
        if f.is_dir && f.non_empty {
            match last_id_exec(ids, f.name.as_str()) {
                Some(c) => {
                    proof {
                        lemma_last_id_in(iv, f.name@);
                    }
                    let mut names: Vec<String> = Vec::new();
                    names.push(ids[c].clone());
                    let k = SortKey { rank: 0, names, index: keyed.len() };
                    assert(string_views(k.names@) =~= seq![iv[c as int]]);
                    keyed.push((k, (d, c)));
                },
                None => {},
            }
        }
        d = d + 1;
    }
    assert(dirs@.take(dirs@.len() as int) =~= dirs@);
    let ghost kv = keyed@;
    let ghost c = installed_candidates(iv, dirs@);
    assert(key_views(kv) =~= candidate_keys(iv, c));
    let sorted = sort_keyed(keyed);
    proof {
        crate::order::lemma_sorted_payload(kv, sorted@, |w: int| kv[w].1);
    }
    let ghost sv = sorted@;
    let r = strip_keys(sorted);
    proof {
        let s = candidate_keys(iv, c).sort_by(key_order());
        assert(key_views(sv) == s);
        assert forall|q: int| 0 <= q < r@.len() implies (#[trigger] r@[q]).0 as int == select_installed_spec(iv, dirs@)[q].0
            && r@[q].1 as int == select_installed_spec(iv, dirs@)[q].1 by {
            assert(r@[q] == sv[q].1);
            assert(key_views(sv)[q] == sv[q].0.view());
            assert(sv[q].1 == kv[s[q].2].1);
        }
    }
    r
}

proof fn lemma_last_id_in(ids: Seq<Seq<char>>, n: Seq<char>)
    ensures
        last_id(ids, n) matches Some(c) ==> 0 <= c < ids.len() && ids[c] == n,
    decreases ids.len(),
{
    if ids.len() > 0 && ids.last() != n {
        lemma_last_id_in(ids.drop_last(), n);
    }
}

pub struct InstalledEntry {
    pub manifest_path: String,
    pub manifest: Manifest,
    pub install_dir: String,
    pub artwork_path: Option<String>,
}

} // verus!
