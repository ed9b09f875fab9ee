//! Exporting a catalog entry for submission to the upstream tap: the
//! entry's text plus maintainer-facing warnings about missing metadata.

use vstd::prelude::*;
use crate::catalog::CatalogEntry;
use crate::text::{owned, push_str, string_views};

verus! {

#[derive(Debug, Clone, PartialEq, Eq)]
pub struct ExportedManifest {
    /// The entry as TOML, ready to paste.
    pub content: String,
    /// Missing metadata a tap maintainer would ask for.
    pub warnings: Vec<String>,
}

#[derive(Debug)]
pub enum ExportError {
    Validation(String),
}

pub open spec fn warn_if(cond: bool, w: Seq<char>) -> Seq<Seq<char>> {
    if cond {
        seq![w]
    } else {
        Seq::empty()
    }
}

/// The warnings for `e`, in order.
pub open spec fn warnings_spec(e: CatalogEntry) -> Seq<Seq<char>> {
    let m = e.meta;
    let a = e.acquisition;
    Seq::<Seq<char>>::empty() + warn_if(
        m.year is None,
        "[meta].year is missing — tap maintainers usually want a release year"@,
    ) + warn_if(m.developer is None, "[meta].developer is missing"@) + warn_if(
        m.publisher is None,
        "[meta].publisher is missing"@,
    ) + warn_if(
        m.description is None,
        "[meta].description is missing — tap maintainers usually want a short description"@,
    ) + warn_if(m.genre@.len() == 0, "[meta].genre is empty"@) + warn_if(
        a.gog is None && a.steam is None && a.developer_site is None && a.archive is None
            && a.amiga_forever is None,
        "[acquisition] has no purchase or download link — tap maintainers ask how the game is distributed"@,
    )
}

fn warn(w: &mut Vec<String>, cond: bool, text: &str)
    ensures
        string_views(final(w)@) == string_views(old(w)@) + warn_if(cond, text@),
{
    let ghost before = w@;
    if cond {
        w.push(owned(text));
    }
    assert(string_views(w@) =~= string_views(before) + warn_if(cond, text@));
}

/// Missing metadata that tap maintainers ask about in a submitted entry.
pub fn gather_warnings(entry: &CatalogEntry) -> (r: Vec<String>)
    ensures
        string_views(r@) == warnings_spec(*entry),
{
    let mut w: Vec<String> = Vec::new();
    assert(string_views(w@) =~= Seq::<Seq<char>>::empty());
    let m = &entry.meta;
    warn(&mut w, m.year.is_none(), "[meta].year is missing — tap maintainers usually want a release year");
    warn(&mut w, m.developer.is_none(), "[meta].developer is missing");
    warn(&mut w, m.publisher.is_none(), "[meta].publisher is missing");
    warn(
        &mut w,
        m.description.is_none(),
        "[meta].description is missing — tap maintainers usually want a short description",
    );
    warn(&mut w, m.genre.len() == 0, "[meta].genre is empty");
    let a = &entry.acquisition;
    warn(
        &mut w,
        a.gog.is_none() && a.steam.is_none() && a.developer_site.is_none() && a.archive.is_none()
            && a.amiga_forever.is_none(),
        "[acquisition] has no purchase or download link — tap maintainers ask how the game is distributed",
    );
    w
}

/// The export of `entry` given its TOML text: the text and the warnings.
pub fn export_manifest(entry: &CatalogEntry, content: String) -> (r: ExportedManifest)
    ensures
        r.content@ == content@,
        string_views(r.warnings@) == warnings_spec(*entry),
{
    ExportedManifest { content, warnings: gather_warnings(entry) }
}

pub open spec fn new_file_url_spec(platform: Seq<char>, branch: Seq<char>) -> Seq<char> {
    "https://github.com/syraenix/reliquaint/new/"@ + branch + "/tap/catalog/"@ + platform + "/"@
}

/// The GitHub page that creates a new file in the upstream tap's catalog
/// directory for `platform`, on `branch`.
pub fn github_new_file_url(platform: &str, branch: &str) -> (r: String)
    ensures
        r@ == new_file_url_spec(platform@, branch@),
{
    let mut u = owned("https://github.com/syraenix/reliquaint/new/");
    push_str(&mut u, branch);
    push_str(&mut u, "/tap/catalog/");
    push_str(&mut u, platform);
    push_str(&mut u, "/");
    u
}

} // verus!

verus! {

/// The distribution warning is given exactly when the entry names no way
/// to get the game: no GOG, Steam, developer-site, archive or Amiga
/// Forever link. Any one link, Steam included, silences it.
pub proof fn lemma_acquisition_warning(e: CatalogEntry)
    ensures
        warnings_spec(e).contains(
            "[acquisition] has no purchase or download link — tap maintainers ask how the game is distributed"@,
        ) <==> (e.acquisition.gog is None && e.acquisition.steam is None && e.acquisition.developer_site is None
            && e.acquisition.archive is None && e.acquisition.amiga_forever is None),
{
    let acq = "[acquisition] has no purchase or download link — tap maintainers ask how the game is distributed"@;
    reveal_strlit("[acquisition] has no purchase or download link — tap maintainers ask how the game is distributed");
    reveal_strlit("[meta].year is missing — tap maintainers usually want a release year");
    reveal_strlit("[meta].developer is missing");
    reveal_strlit("[meta].publisher is missing");
    reveal_strlit("[meta].description is missing — tap maintainers usually want a short description");
    reveal_strlit("[meta].genre is empty");
    let a = e.acquisition;
    let none = a.gog is None && a.steam is None && a.developer_site is None && a.archive is None
        && a.amiga_forever is None;
    let w = warnings_spec(e);
    let m = e.meta;
    let metas = Seq::<Seq<char>>::empty() + warn_if(
        m.year is None,
        "[meta].year is missing — tap maintainers usually want a release year"@,
    ) + warn_if(m.developer is None, "[meta].developer is missing"@) + warn_if(
        m.publisher is None,
        "[meta].publisher is missing"@,
    ) + warn_if(
        m.description is None,
        "[meta].description is missing — tap maintainers usually want a short description"@,
    ) + warn_if(m.genre@.len() == 0, "[meta].genre is empty"@);
    assert(w == metas + warn_if(none, acq));
    assert forall|k: int| 0 <= k < metas.len() implies #[trigger] metas[k][1] == 'm' by {}
    assert(acq[1] == 'a');
    if none {
        assert(w[w.len() - 1] == acq);
    } else {
        assert(w =~= metas);
        if w.contains(acq) {
            let k = choose|k: int| 0 <= k < w.len() && w[k] == acq;
            assert(metas[k][1] == 'm');
        }
    }
}

} // verus!
