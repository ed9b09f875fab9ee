//! The doctor: diagnostics over the host, the install records and the
//! companion content. Running `which`, `flatpak info`, looking at the disk
//! and reading Markdown is the caller's work; it hands over what it found
//! and the functions here decide what each probe reports.

use vstd::prelude::*;
use crate::catalog::Platform;
use crate::catalog_view::{derefs, is_installed, CatalogView, CatalogViewEntry};
use crate::companion::{CompanionItem, CompanionKind};
use crate::companion_protocol::ImageError;
use crate::install_record::{missing_expects_files, missing_spec};
use crate::known_taps::{is_known_tap, known_tap_url};
use crate::text::{
    chars_of, debug_quoted, decimal, join_sep, join_strings, owned, push_debug_quoted,
    push_decimal, push_str, seq_eq, str_eq, string_from, string_views, views, words, words_exec,
};
use crate::user_config::UserConfig;

verus! {

#[derive(Debug, PartialEq, Eq)]
pub enum ProbeStatus {
    Pass,
    Missing,
    Unknown,
    /// Advisory issue, surfaced to the user but not a host failure, so it
    /// does not change the doctor's exit code.
    Warn,
}

#[derive(Debug, Clone, PartialEq, Eq)]
pub enum ProbeKind {
    DosboxFlatpak,
    Fluidsynth,
    Soundfont,
    Innoextract,
    FsUae,
    Unzip,
    GameInstallDir(String),
    /// A companion-content health issue, tagged with `"<tap>/<game>"`.
    Companion(String),
}

pub struct ProbeResult {
    pub name: String,
    pub status: ProbeStatus,
    pub detail: Option<String>,
    pub kind: ProbeKind,
}

pub enum KindView {
    DosboxFlatpak,
    Fluidsynth,
    Soundfont,
    Innoextract,
    FsUae,
    Unzip,
    GameInstallDir(Seq<char>),
    Companion(Seq<char>),
}

impl View for ProbeKind {
    type V = KindView;

    open spec fn view(&self) -> KindView {
        match self {
            ProbeKind::DosboxFlatpak => KindView::DosboxFlatpak,
            ProbeKind::Fluidsynth => KindView::Fluidsynth,
            ProbeKind::Soundfont => KindView::Soundfont,
            ProbeKind::Innoextract => KindView::Innoextract,
            ProbeKind::FsUae => KindView::FsUae,
            ProbeKind::Unzip => KindView::Unzip,
            ProbeKind::GameInstallDir(s) => KindView::GameInstallDir(s@),
            ProbeKind::Companion(s) => KindView::Companion(s@),
        }
    }
}

/// A probe as plain values: name, status, detail, kind.
pub struct ProbeView {
    pub name: Seq<char>,
    pub status: ProbeStatus,
    pub detail: Option<Seq<char>>,
    pub kind: KindView,
}

pub open spec fn opt_view(o: Option<String>) -> Option<Seq<char>> {
    match o {
        Some(s) => Some(s@),
        None => None,
    }
}

impl View for ProbeResult {
    type V = ProbeView;

    open spec fn view(&self) -> ProbeView {
        ProbeView { name: self.name@, status: self.status, detail: opt_view(self.detail), kind: self.kind@ }
    }
}

pub open spec fn probe_views(v: Seq<ProbeResult>) -> Seq<ProbeView> {
    v.map_values(|p: ProbeResult| p@)
}

proof fn lemma_probe_views_push(v: Seq<ProbeResult>, p: ProbeResult)
    ensures
        probe_views(v.push(p)) == probe_views(v).push(p@),
{
    assert(probe_views(v.push(p)) =~= probe_views(v).push(p@));
}

fn push_probe(out: &mut Vec<ProbeResult>, p: ProbeResult)
    ensures
        probe_views(final(out)@) == probe_views(old(out)@).push(p@),
{
    proof {
        lemma_probe_views_push(out@, p);
    }
    out.push(p);
}

/// How an external check ended: it ran and succeeded, it ran and failed,
/// or it could not be run at all.
#[derive(Debug, Clone, Copy, PartialEq, Eq, Structural)]
pub enum ProbeOutcome {
    Success,
    Failure,
    Unavailable,
}

pub open spec fn status_of(o: ProbeOutcome) -> ProbeStatus {
    match o {
        ProbeOutcome::Success => ProbeStatus::Pass,
        ProbeOutcome::Failure => ProbeStatus::Missing,
        ProbeOutcome::Unavailable => ProbeStatus::Unknown,
    }
}

fn status_for(o: ProbeOutcome) -> (r: ProbeStatus)
    ensures
        r == status_of(o),
{
    match o {
        ProbeOutcome::Success => ProbeStatus::Pass,
        ProbeOutcome::Failure => ProbeStatus::Missing,
        ProbeOutcome::Unavailable => ProbeStatus::Unknown,
    }
}

fn copy_kind(k: &ProbeKind) -> (r: ProbeKind)
    ensures
        r@ == k@,
{
    match k {
        ProbeKind::DosboxFlatpak => ProbeKind::DosboxFlatpak,
        ProbeKind::Fluidsynth => ProbeKind::Fluidsynth,
        ProbeKind::Soundfont => ProbeKind::Soundfont,
        ProbeKind::Innoextract => ProbeKind::Innoextract,
        ProbeKind::FsUae => ProbeKind::FsUae,
        ProbeKind::Unzip => ProbeKind::Unzip,
        ProbeKind::GameInstallDir(s) => ProbeKind::GameInstallDir(s.clone()),
        ProbeKind::Companion(s) => ProbeKind::Companion(s.clone()),
    }
}

fn cat2(a: &str, b: &str) -> (r: String)
    ensures
        r@ == a@ + b@,
{
    let mut r = owned(a);
    push_str(&mut r, b);
    r
}

fn cat3(a: &str, b: &str, c: &str) -> (r: String)
    ensures
        r@ == a@ + b@ + c@,
{
    let mut r = cat2(a, b);
    push_str(&mut r, c);
    r
}

/// What to run to find out whether an emulator command is available.
pub enum ProbeRequest {
    /// The configured command is empty: nothing to run.
    EmptyCommand,
    /// `flatpak run <app>`: ask flatpak about the app.
    FlatpakApp(String),
    /// Any other command: look its program up on `PATH`.
    Program(String),
}

pub enum RequestView {
    EmptyCommand,
    FlatpakApp(Seq<char>),
    Program(Seq<char>),
}

impl View for ProbeRequest {
    type V = RequestView;

    open spec fn view(&self) -> RequestView {
        match self {
            ProbeRequest::EmptyCommand => RequestView::EmptyCommand,
            ProbeRequest::FlatpakApp(a) => RequestView::FlatpakApp(a@),
            ProbeRequest::Program(p) => RequestView::Program(p@),
        }
    }
}

/// The request for a command line: its first word is the program, unless
/// the line reads `flatpak run <app> ...`.
pub open spec fn request_of(cmd: Seq<char>) -> RequestView {
    let w = words(cmd);
    if w.len() == 0 {
        RequestView::EmptyCommand
    } else if w[0] == "flatpak"@ && w.len() >= 3 && w[1] == "run"@ {
        RequestView::FlatpakApp(w[2])
    } else {
        RequestView::Program(w[0])
    }
}

fn is_word(w: &Vec<char>, lit: &str) -> (r: bool)
    ensures
        r == (w@ == lit@),
{
    let l = chars_of(lit);
    seq_eq(w.as_slice(), l.as_slice())
}

pub fn probe_request(command: &str) -> (r: ProbeRequest)
    ensures
        r@ == request_of(command@),
{
    let cs = chars_of(command);
    let w = words_exec(cs.as_slice(), false);
    assert(views(w@) == words(command@));
    if w.len() == 0 {
        return ProbeRequest::EmptyCommand;
    }
    assert(views(w@)[0] == w@[0]@);
    if w.len() >= 3 && is_word(&w[0], "flatpak") && is_word(&w[1], "run") {
        assert(views(w@)[1] == w@[1]@);
        assert(views(w@)[2] == w@[2]@);
        ProbeRequest::FlatpakApp(string_from(w[2].as_slice()))
    } else {
        ProbeRequest::Program(string_from(w[0].as_slice()))
    }
}

/// What the probe of an emulator command reports, given how its check
/// ended.
pub open spec fn emulator_probe_spec(name: Seq<char>, cmd: Seq<char>, kind: KindView, o: ProbeOutcome) -> ProbeView {
    match request_of(cmd) {
        RequestView::EmptyCommand => ProbeView {
            name,
            status: ProbeStatus::Missing,
            detail: Some("user config command is empty"@),
            kind,
        },
        RequestView::FlatpakApp(app) => ProbeView {
            name,
            status: status_of(o),
            detail: Some("flatpak run "@ + app),
            kind,
        },
        RequestView::Program(p) => ProbeView { name, status: status_of(o), detail: Some(p), kind },
    }
}

/// The probe of an emulator command, given how the check that
/// [`probe_request`] asks for ended (ignored for an empty command).
pub fn probe_emulator_command(name: &str, command: &str, kind: ProbeKind, outcome: ProbeOutcome) -> (r: ProbeResult)
    ensures
        r@ == emulator_probe_spec(name@, command@, kind@, outcome),
{
    match probe_request(command) {
        ProbeRequest::EmptyCommand => ProbeResult {
            name: owned(name),
            status: ProbeStatus::Missing,
            detail: Some(owned("user config command is empty")),
            kind,
        },
        ProbeRequest::FlatpakApp(app) => ProbeResult {
            name: owned(name),
            status: status_for(outcome),
            detail: Some(cat2("flatpak run ", app.as_str())),
            kind,
        },
        ProbeRequest::Program(p) => ProbeResult {
            name: owned(name),
            status: status_for(outcome),
            detail: Some(p),
            kind,
        },
    }
}

pub open spec fn path_probe_spec(name: Seq<char>, path: Seq<char>, kind: KindView, exists: bool) -> ProbeView {
    ProbeView {
        name,
        status: if exists { ProbeStatus::Pass } else { ProbeStatus::Missing },
        detail: Some(path),
        kind,
    }
}

/// The probe of a path that must exist.
pub fn probe_path_exists(name: &str, path: &str, kind: ProbeKind, exists: bool) -> (r: ProbeResult)
    ensures
        r@ == path_probe_spec(name@, path@, kind@, exists),
{
    ProbeResult {
        name: owned(name),
        status: if exists { ProbeStatus::Pass } else { ProbeStatus::Missing },
        detail: Some(owned(path)),
        kind,
    }
}

/// What was found at an install path: whether it is a directory, and the
/// names listed in it.
pub struct InstallFacts {
    pub is_dir: bool,
    pub entries: Vec<String>,
}

pub open spec fn install_probe_spec(
    id: Seq<char>,
    path: Seq<char>,
    is_dir: bool,
    entries: Seq<Seq<char>>,
    expects: Seq<Seq<char>>,
) -> ProbeView {
    let kind = KindView::GameInstallDir(id);
    if !is_dir {
        ProbeView { name: "install path for "@ + id, status: ProbeStatus::Missing, detail: Some(path), kind }
    } else if missing_spec(entries, expects).len() == 0 {
        ProbeView { name: "install for "@ + id, status: ProbeStatus::Pass, detail: Some(path), kind }
    } else {
        ProbeView {
            name: "expects_files for "@ + id,
            status: ProbeStatus::Missing,
            detail: Some("missing in "@ + path + ": "@ + join_sep(missing_spec(entries, expects), ", "@)),
            kind,
        }
    }
}

/// The probe of one installed game: its directory must exist and hold
/// every file the catalog entry expects (names compared ignoring ASCII
/// case).
pub fn install_probe(id: &str, install_path: &str, facts: &InstallFacts, expects: &Vec<String>) -> (r: ProbeResult)
    ensures
        r@ == install_probe_spec(id@, install_path@, facts.is_dir, string_views(facts.entries@), string_views(expects@)),
{
    let kind = ProbeKind::GameInstallDir(owned(id));
    if !facts.is_dir {
        return ProbeResult {
            name: cat2("install path for ", id),
            status: ProbeStatus::Missing,
            detail: Some(owned(install_path)),
            kind,
        };
    }
    let missing = missing_expects_files(&facts.entries, expects);
    if missing.len() == 0 {
        ProbeResult {
            name: cat2("install for ", id),
            status: ProbeStatus::Pass,
            detail: Some(owned(install_path)),
            kind,
        }
    } else {
        let mut d = cat3("missing in ", install_path, ": ");
        let joined = join_strings(&missing, ", ");
        push_str(&mut d, joined.as_str());
        ProbeResult { name: cat2("expects_files for ", id), status: ProbeStatus::Missing, detail: Some(d), kind }
    }
}

pub open spec fn orphan_probe_spec(tap: Seq<char>, catalog_id: Seq<char>) -> ProbeView {
    let suggestion = if known_tap_url(tap) is Some {
        " \u{2014} run: reliquaint tap add "@ + tap
    } else {
        Seq::empty()
    };
    ProbeView {
        name: "orphan install record: "@ + catalog_id,
        status: ProbeStatus::Missing,
        detail: Some(
            "tap="@ + debug_quoted(tap) + " catalog_id="@ + debug_quoted(catalog_id)
                + " \u{2014} no matching entry in any loaded tap"@ + suggestion,
        ),
        kind: KindView::GameInstallDir(catalog_id),
    }
}

/// The probe of an install record that matches no loaded entry; for a
/// known tap it suggests adding it.
pub fn orphan_probe(tap: &str, catalog_id: &str) -> (r: ProbeResult)
    ensures
        r@ == orphan_probe_spec(tap@, catalog_id@),
{
    let mut d = owned("tap=");
    push_debug_quoted(&mut d, tap);
    push_str(&mut d, " catalog_id=");
    push_debug_quoted(&mut d, catalog_id);
    push_str(&mut d, " \u{2014} no matching entry in any loaded tap");
    if is_known_tap(tap) {
        push_str(&mut d, " \u{2014} run: reliquaint tap add ");
        push_str(&mut d, tap);
    }
    proof {
        let base = "tap="@ + debug_quoted(tap@) + " catalog_id="@ + debug_quoted(catalog_id@)
            + " \u{2014} no matching entry in any loaded tap"@;
        if known_tap_url(tap@) is None {
            assert(d@ =~= base + Seq::<char>::empty());
        } else {
            assert(d@ =~= base + (" \u{2014} run: reliquaint tap add "@ + tap@));
        }
    }
    ProbeResult {
        name: cat2("orphan install record: ", catalog_id),
        status: ProbeStatus::Missing,
        detail: Some(d),
        kind: ProbeKind::GameInstallDir(owned(catalog_id)),
    }
}

} // verus!

verus! {

/// Raw-HTML byte count above which the doctor warns: a handful of bytes can
/// come from stray angle brackets; more is a deliberate HTML block.
pub const RAW_HTML_WARN_THRESHOLD: usize = 32;

pub open spec fn image_reason(e: ImageError, img: Seq<char>) -> Seq<char> {
    match e {
        ImageError::NotFound => "references missing file: "@ + img,
        ImageError::OutsideBoundary => "reference escapes the companion directory: "@ + img,
        ImageError::BadFormat => "not a renderable image (bad extension or contents): "@ + img,
        ImageError::Io => "could not read image: "@ + img,
    }
}

pub open spec fn doc_pair(tap: Seq<char>, game: Seq<char>) -> Seq<char> {
    tap + "/"@ + game
}

pub open spec fn doc_where(tap: Seq<char>, game: Seq<char>, rel: Seq<char>) -> Seq<char> {
    tap + "/"@ + game + "/"@ + rel
}

pub open spec fn image_probe_spec(tap: Seq<char>, game: Seq<char>, rel: Seq<char>, img: Seq<char>, e: ImageError) -> ProbeView {
    ProbeView {
        name: "broken image in "@ + doc_where(tap, game, rel),
        status: ProbeStatus::Warn,
        detail: Some(image_reason(e, img)),
        kind: KindView::Companion(doc_pair(tap, game)),
    }
}

pub open spec fn raw_html_probe_spec(tap: Seq<char>, game: Seq<char>, rel: Seq<char>, raw: nat) -> ProbeView {
    ProbeView {
        name: "raw HTML stripped in "@ + doc_where(tap, game, rel),
        status: ProbeStatus::Warn,
        detail: Some(decimal(raw) + " bytes of raw HTML were neutralized \u{2014} they won't render"@),
        kind: KindView::Companion(doc_pair(tap, game)),
    }
}

/// What was found in one companion Markdown document: the relative image
/// references that the image resolver refused, with its reason, and the
/// bytes of raw HTML it holds.
pub struct CompanionDocFacts {
    pub tap_id: String,
    pub game_id: String,
    pub rel_path: String,
    pub broken_images: Vec<(String, ImageError)>,
    pub raw_html_bytes: usize,
}

pub open spec fn image_probes(d: CompanionDocFacts, n: int) -> Seq<ProbeView>
    decreases n,
{
    if n <= 0 {
        Seq::empty()
    } else {
        image_probes(d, n - 1).push(
            image_probe_spec(d.tap_id@, d.game_id@, d.rel_path@, d.broken_images@[n - 1].0@, d.broken_images@[n - 1].1),
        )
    }
}

/// The warnings for one document: one per refused image, then one if it
/// holds more raw HTML than the threshold.
pub open spec fn doc_probes(d: CompanionDocFacts) -> Seq<ProbeView> {
    image_probes(d, d.broken_images@.len() as int) + if d.raw_html_bytes > RAW_HTML_WARN_THRESHOLD {
        seq![raw_html_probe_spec(d.tap_id@, d.game_id@, d.rel_path@, d.raw_html_bytes as nat)]
    } else {
        Seq::empty()
    }
}

pub open spec fn docs_probes(ds: Seq<CompanionDocFacts>, n: int) -> Seq<ProbeView>
    decreases n,
{
    if n <= 0 {
        Seq::empty()
    } else {
        docs_probes(ds, n - 1) + doc_probes(ds[n - 1])
    }
}

fn where_string(tap: &str, game: &str, rel: &str) -> (r: String)
    ensures
        r@ == doc_where(tap@, game@, rel@),
{
    let mut r = cat3(tap, "/", game);
    push_str(&mut r, "/");
    push_str(&mut r, rel);
    r
}

fn image_probe(tap: &str, game: &str, rel: &str, img: &str, e: ImageError) -> (r: ProbeResult)
    ensures
        r@ == image_probe_spec(tap@, game@, rel@, img@, e),
{
    let w = where_string(tap, game, rel);
    let reason = match e {
        ImageError::NotFound => cat2("references missing file: ", img),
        ImageError::OutsideBoundary => cat2("reference escapes the companion directory: ", img),
        ImageError::BadFormat => cat2("not a renderable image (bad extension or contents): ", img),
        ImageError::Io => cat2("could not read image: ", img),
    };
    ProbeResult {
        name: cat2("broken image in ", w.as_str()),
        status: ProbeStatus::Warn,
        detail: Some(reason),
        kind: ProbeKind::Companion(cat3(tap, "/", game)),
    }
}

fn push_doc_probes(out: &mut Vec<ProbeResult>, d: &CompanionDocFacts)
    ensures
        probe_views(final(out)@) == probe_views(old(out)@) + doc_probes(*d),
{
    let ghost start = probe_views(out@);
    let mut i: usize = 0;
    while i < d.broken_images.len()
        invariant
            i <= d.broken_images@.len(),
            probe_views(out@) == start + image_probes(*d, i as int),
        decreases d.broken_images@.len() - i,
    {
        let p = image_probe(
            d.tap_id.as_str(),
            d.game_id.as_str(),
            d.rel_path.as_str(),
            d.broken_images[i].0.as_str(),
            d.broken_images[i].1,
        );
        push_probe(out, p);
        i = i + 1;
        assert(probe_views(out@) =~= start + image_probes(*d, i as int));
    }
    if d.raw_html_bytes > RAW_HTML_WARN_THRESHOLD {
        let w = where_string(d.tap_id.as_str(), d.game_id.as_str(), d.rel_path.as_str());
        let mut detail = String::new();
        push_decimal(&mut detail, d.raw_html_bytes as u64);
        push_str(&mut detail, " bytes of raw HTML were neutralized \u{2014} they won't render");
        let p = ProbeResult {
            name: cat2("raw HTML stripped in ", w.as_str()),
            status: ProbeStatus::Warn,
            detail: Some(detail),
            kind: ProbeKind::Companion(cat3(d.tap_id.as_str(), "/", d.game_id.as_str())),
        };
        push_probe(out, p);
        assert(probe_views(out@) =~= start + doc_probes(*d));
    } else {
        assert(probe_views(out@) =~= start + doc_probes(*d));
    }
}

pub open spec fn same_key(a: CompanionItem, b: CompanionItem) -> bool {
    a.tap_id@ == b.tap_id@ && a.game_id@ == b.game_id@
}

/// Is item `i` the first of its tap and game?
pub open spec fn first_of_key(c: Seq<CompanionItem>, i: int) -> bool {
    forall|j: int| 0 <= j < i ==> !same_key(#[trigger] c[j], c[i])
}

pub open spec fn has_entry(es: Seq<CatalogViewEntry>, tap: Seq<char>, game: Seq<char>) -> bool {
    exists|j: int| 0 <= j < es.len() && (#[trigger] es[j]).tap_id@ == tap && es[j].catalog.game.id@ == game
}

pub open spec fn stray_probe_spec(tap: Seq<char>, game: Seq<char>) -> ProbeView {
    ProbeView {
        name: "companion content for "@ + doc_pair(tap, game),
        status: ProbeStatus::Warn,
        detail: Some("no catalog entry for this game in that tap \u{2014} maintainer typo?"@),
        kind: KindView::Companion(doc_pair(tap, game)),
    }
}

/// One warning per tap and game that carries companion content but has no
/// catalog entry in that tap, in the order the content first appears.
pub open spec fn stray_probes(es: Seq<CatalogViewEntry>, c: Seq<CompanionItem>, n: int) -> Seq<ProbeView>
    decreases n,
{
    if n <= 0 {
        Seq::empty()
    } else if first_of_key(c, n - 1) && !has_entry(es, c[n - 1].tap_id@, c[n - 1].game_id@) {
        stray_probes(es, c, n - 1).push(stray_probe_spec(c[n - 1].tap_id@, c[n - 1].game_id@))
    } else {
        stray_probes(es, c, n - 1)
    }
}

fn is_first_of_key(c: &Vec<CompanionItem>, i: usize) -> (r: bool)
    requires
        i < c@.len(),
    ensures
        r == first_of_key(c@, i as int),
{
    let mut j: usize = 0;
    while j < i
        invariant
            i < c@.len(),
            j <= i,
            forall|k: int| 0 <= k < j ==> !same_key(#[trigger] c@[k], c@[i as int]),
        decreases i - j,
    {
        if str_eq(c[j].tap_id.as_str(), c[i].tap_id.as_str()) && str_eq(c[j].game_id.as_str(), c[i].game_id.as_str()) {
            assert(same_key(c@[j as int], c@[i as int]));
            return false;
        }
        j = j + 1;
    }
    true
}

fn push_stray_probes(out: &mut Vec<ProbeResult>, view: &CatalogView)
    ensures
        probe_views(final(out)@) == probe_views(old(out)@) + stray_probes(
            view.entries_view(),
            view.companion_view(),
            view.companion_view().len() as int,
        ),
{
    let ghost start = probe_views(out@);
    let ghost es = view.entries_view();
    let items = view.all_companion();
    let mut i: usize = 0;
    while i < items.len()
        invariant
            i <= items@.len(),
            items@ == view.companion_view(),
            es == view.entries_view(),
            probe_views(out@) == start + stray_probes(es, items@, i as int),
        decreases items@.len() - i,
    {
        let first = is_first_of_key(items, i);
        if first {
            let item = &items[i];
            match view.by_tap_and_id(item.tap_id.as_str(), item.game_id.as_str()) {
                Some(_) => {
                    assert(has_entry(es, item.tap_id@, item.game_id@));
                },
                None => {
                    assert(!has_entry(es, item.tap_id@, item.game_id@));
                    let pair = cat3(item.tap_id.as_str(), "/", item.game_id.as_str());
                    let p = ProbeResult {
                        name: cat2("companion content for ", pair.as_str()),
                        status: ProbeStatus::Warn,
                        detail: Some(owned("no catalog entry for this game in that tap \u{2014} maintainer typo?")),
                        kind: ProbeKind::Companion(pair),
                    };
                    push_probe(out, p);
                },
            }
        }
        i = i + 1;
        assert(probe_views(out@) =~= start + stray_probes(es, items@, i as int));
    }
}

fn push_companion(out: &mut Vec<ProbeResult>, view: &CatalogView, docs: &Vec<CompanionDocFacts>)
    ensures
        probe_views(final(out)@) == probe_views(old(out)@) + docs_probes(docs@, docs@.len() as int)
            + stray_probes(view.entries_view(), view.companion_view(), view.companion_view().len() as int),
{
    let ghost start = probe_views(out@);
    let mut i: usize = 0;
    assert(probe_views(out@) =~= start + docs_probes(docs@, 0));
    while i < docs.len()
        invariant
            i <= docs@.len(),
            probe_views(out@) == start + docs_probes(docs@, i as int),
        decreases docs@.len() - i,
    {
        push_doc_probes(out, &docs[i]);
        i = i + 1;
        assert(probe_views(out@) =~= start + docs_probes(docs@, i as int));
    }
    let ghost mid = probe_views(out@);
    push_stray_probes(out, view);
    assert(probe_views(out@) =~= start + docs_probes(docs@, docs@.len() as int)
        + stray_probes(view.entries_view(), view.companion_view(), view.companion_view().len() as int));
}

/// The companion-content warnings: those the caller found in the
/// documents it checked, then companion content that no catalog entry of
/// its tap claims. All are advisory.
pub fn check_companion(view: &CatalogView, docs: &Vec<CompanionDocFacts>) -> (r: Vec<ProbeResult>)
    ensures
        probe_views(r@) == docs_probes(docs@, docs@.len() as int) + stray_probes(
            view.entries_view(),
            view.companion_view(),
            view.companion_view().len() as int,
        ),
{
    let mut out: Vec<ProbeResult> = Vec::new();
    assert(probe_views(out@) =~= Seq::<ProbeView>::empty());
    push_companion(&mut out, view, docs);
    assert(probe_views(out@) =~= docs_probes(docs@, docs@.len() as int) + stray_probes(
        view.entries_view(),
        view.companion_view(),
        view.companion_view().len() as int,
    ));
    out
}

pub open spec fn markdown_of(id: Seq<char>) -> spec_fn(CompanionItem) -> bool {
    |c: CompanionItem| c.game_id@ == id && c.kind == CompanionKind::Markdown
}

pub open spec fn docs_for(installed: Seq<CatalogViewEntry>, comp: Seq<CompanionItem>, n: int) -> Seq<CompanionItem>
    decreases n,
{
    if n <= 0 {
        Seq::empty()
    } else {
        docs_for(installed, comp, n - 1) + comp.filter(markdown_of(installed[n - 1].catalog.game.id@))
    }
}

/// The companion Markdown documents the doctor reads: those of each
/// installed game, game after game in view order.
pub fn companion_docs_to_check(view: &CatalogView) -> (r: Vec<&CompanionItem>)
    ensures
        derefs(r@) == docs_for(
            view.entries_view().filter(is_installed()),
            view.companion_view(),
            view.entries_view().filter(is_installed()).len() as int,
        ),
{
    let installed = view.installed_only();
    let ghost inst = view.entries_view().filter(is_installed());
    let items = view.all_companion();
    let mut r: Vec<&CompanionItem> = Vec::new();
    let mut k: usize = 0;
    assert(derefs(r@) =~= Seq::<CompanionItem>::empty());
    while k < installed.len()
        invariant
            k <= installed@.len(),
            derefs(installed@) == inst,
            items@ == view.companion_view(),
            derefs(r@) == docs_for(inst, items@, k as int),
        decreases installed@.len() - k,
    {
        let id = installed[k].catalog.game.id.as_str();
        assert(inst[k as int] == *installed@[k as int]);
        let ghost before = derefs(r@);
        let mut i: usize = 0;
        assert(items@.take(0).filter(markdown_of(id@)) =~= Seq::<CompanionItem>::empty()) by {
            reveal(Seq::filter);
        }
        while i < items.len()
            invariant
                i <= items@.len(),
                derefs(r@) == before + items@.take(i as int).filter(markdown_of(id@)),
            decreases items@.len() - i,
        {
            proof {
                crate::catalog_view::lemma_filter_step(items@, i as int, markdown_of(id@));
            }
            let c = &items[i];
            if str_eq(c.game_id.as_str(), id) && c.kind == CompanionKind::Markdown {
                proof {
                    crate::catalog_view::lemma_derefs_push(r@, c);
                }
                r.push(c);
                assert(derefs(r@) =~= before + items@.take(i + 1).filter(markdown_of(id@)));
            }
            i = i + 1;
        }
        assert(items@.take(items@.len() as int) =~= items@);
        k = k + 1;
    }
    r
}

} // verus!

verus! {

pub open spec fn uses_fluidsynth(e: CatalogViewEntry) -> bool {
    string_views(e.catalog.runtime.sidecars@).contains("fluidsynth"@)
}

pub open spec fn any_fluidsynth(es: Seq<CatalogViewEntry>) -> bool {
    exists|i: int| 0 <= i < es.len() && uses_fluidsynth(#[trigger] es[i])
}

pub open spec fn any_amiga(es: Seq<CatalogViewEntry>) -> bool {
    exists|i: int| 0 <= i < es.len() && (#[trigger] es[i]).catalog.game.platform == Platform::Amiga
}

fn entry_uses_fluidsynth(e: &CatalogViewEntry) -> (r: bool)
    ensures
        r == uses_fluidsynth(*e),
{
    let sc = &e.catalog.runtime.sidecars;
    let mut k: usize = 0;
    while k < sc.len()
        invariant
            k <= sc@.len(),
            sc@ == e.catalog.runtime.sidecars@,
            forall|j: int| 0 <= j < k ==> string_views(sc@)[j] != "fluidsynth"@,
        decreases sc@.len() - k,
    {
        assert(string_views(sc@)[k as int] == sc@[k as int]@);
        if str_eq(sc[k].as_str(), "fluidsynth") {
            assert(string_views(sc@)[k as int] == "fluidsynth"@);
            assert(0 <= k < string_views(sc@).len());
            assert(string_views(sc@).contains("fluidsynth"@));
            return true;
        }
        k = k + 1;
    }
    false
}

/// Does any installed game run the fluidsynth sidecar (so the soundfont
/// must be there)?
pub fn any_installed_uses_fluidsynth(view: &CatalogView) -> (r: bool)
    ensures
        r == any_fluidsynth(view.entries_view().filter(is_installed())),
{
    let installed = view.installed_only();
    let ghost inst = view.entries_view().filter(is_installed());
    let mut i: usize = 0;
    while i < installed.len()
        invariant
            i <= installed@.len(),
            derefs(installed@) == inst,
            inst == view.entries_view().filter(is_installed()),
            forall|j: int| 0 <= j < i ==> !uses_fluidsynth(#[trigger] inst[j]),
        decreases installed@.len() - i,
    {
        assert(inst[i as int] == *installed@[i as int]);
        assert(inst.len() == installed@.len());
        if entry_uses_fluidsynth(installed[i]) {
            assert(uses_fluidsynth(inst[i as int]));
            return true;
        }
        i = i + 1;
    }
    false
}

/// Is any Amiga game installed (so the kickstart path matters)?
pub fn any_amiga_installed(view: &CatalogView) -> (r: bool)
    ensures
        r == any_amiga(view.entries_view().filter(is_installed())),
{
    let installed = view.installed_only();
    let ghost inst = view.entries_view().filter(is_installed());
    let mut i: usize = 0;
    while i < installed.len()
        invariant
            i <= installed@.len(),
            derefs(installed@) == inst,
            inst == view.entries_view().filter(is_installed()),
            forall|j: int| 0 <= j < i ==> (#[trigger] inst[j]).catalog.game.platform != Platform::Amiga,
        decreases installed@.len() - i,
    {
        assert(inst[i as int] == *installed@[i as int]);
        assert(inst.len() == installed@.len());
        match installed[i].catalog.game.platform {
            Platform::Amiga => {
                assert(inst[i as int].catalog.game.platform == Platform::Amiga);
                return true;
            },
            Platform::Dos => {},
        }
        i = i + 1;
    }
    false
}

/// What the caller found on the host for [`check_install`]: how the two
/// emulator checks ended, whether the soundfont and the kickstart path
/// exist, what lies at each installed game's path (in the order of
/// `installed_only`), and what it found in the companion documents.
pub struct HostFacts {
    pub dosbox: ProbeOutcome,
    pub fs_uae: ProbeOutcome,
    pub soundfont_exists: bool,
    pub kickstart_exists: bool,
    pub installs: Vec<InstallFacts>,
    pub companion_docs: Vec<CompanionDocFacts>,
}

pub open spec fn install_path_of(e: CatalogViewEntry) -> Seq<char> {
    match e.install {
        Some(rec) => rec.install.install_path@,
        None => Seq::empty(),
    }
}

pub open spec fn install_probes(es: Seq<CatalogViewEntry>, fs: Seq<InstallFacts>, n: int) -> Seq<ProbeView>
    decreases n,
{
    if n <= 0 {
        Seq::empty()
    } else {
        install_probes(es, fs, n - 1).push(
            install_probe_spec(
                es[n - 1].catalog.game.id@,
                install_path_of(es[n - 1]),
                fs[n - 1].is_dir,
                string_views(fs[n - 1].entries@),
                string_views(es[n - 1].catalog.install.expects_files@),
            ),
        )
    }
}

pub open spec fn orphan_probes(os: Seq<crate::install_record::LoadedInstallRecord>, n: int) -> Seq<ProbeView>
    decreases n,
{
    if n <= 0 {
        Seq::empty()
    } else {
        orphan_probes(os, n - 1).push(
            orphan_probe_spec(os[n - 1].record.install.tap@, os[n - 1].record.install.catalog_id@),
        )
    }
}

/// Everything the doctor reports, in order: the two emulators, the
/// soundfont (when an installed game uses fluidsynth), the kickstart path
/// (when an Amiga game is installed and the path is set), each installed
/// game, each orphaned install record, then the companion warnings.
pub open spec fn check_install_spec(
    es: Seq<CatalogViewEntry>,
    orphans: Seq<crate::install_record::LoadedInstallRecord>,
    comp: Seq<CompanionItem>,
    cfg: UserConfig,
    f: HostFacts,
) -> Seq<ProbeView> {
    let installed = es.filter(is_installed());
    seq![
        emulator_probe_spec("dosbox-staging"@, cfg.emulators.dosbox_staging.command@, KindView::DosboxFlatpak, f.dosbox),
        emulator_probe_spec("fs-uae"@, cfg.emulators.fs_uae.command@, KindView::FsUae, f.fs_uae),
    ] + (if any_fluidsynth(installed) {
        seq![path_probe_spec("fluidsynth soundfont"@, cfg.sidecars.fluidsynth.soundfont@, KindView::Soundfont, f.soundfont_exists)]
    } else {
        Seq::empty()
    }) + (match cfg.emulators.fs_uae.kickstart_path {
        Some(k) => if any_amiga(installed) {
            seq![path_probe_spec("fs-uae kickstart_path"@, k@, KindView::FsUae, f.kickstart_exists)]
        } else {
            Seq::empty()
        },
        None => Seq::empty(),
    }) + install_probes(installed, f.installs@, installed.len() as int) + orphan_probes(
        orphans,
        orphans.len() as int,
    ) + docs_probes(f.companion_docs@, f.companion_docs@.len() as int) + stray_probes(es, comp, comp.len() as int)
}

fn push_install_probes(out: &mut Vec<ProbeResult>, view: &CatalogView, facts: &Vec<InstallFacts>)
    requires
        facts@.len() == view.entries_view().filter(is_installed()).len(),
    ensures
        probe_views(final(out)@) == probe_views(old(out)@) + install_probes(
            view.entries_view().filter(is_installed()),
            facts@,
            facts@.len() as int,
        ),
{
    let ghost start = probe_views(out@);
    let installed = view.installed_only();
    let ghost inst = view.entries_view().filter(is_installed());
    let mut i: usize = 0;
    while i < installed.len()
        invariant
            i <= installed@.len(),
            derefs(installed@) == inst,
            facts@.len() == inst.len(),
            probe_views(out@) == start + install_probes(inst, facts@, i as int),
        decreases installed@.len() - i,
    {
        let e = installed[i];
        assert(inst[i as int] == *e);
        let p = match &e.install {
            Some(rec) => install_probe(
                e.catalog.game.id.as_str(),
                rec.install.install_path.as_str(),
                &facts[i],
                &e.catalog.install.expects_files,
            ),
            None => {
                let empty = String::new();
                install_probe(e.catalog.game.id.as_str(), empty.as_str(), &facts[i], &e.catalog.install.expects_files)
            },
        };
        assert(p@ == install_probe_spec(
            inst[i as int].catalog.game.id@,
            install_path_of(inst[i as int]),
            facts@[i as int].is_dir,
            string_views(facts@[i as int].entries@),
            string_views(inst[i as int].catalog.install.expects_files@),
        ));
        push_probe(out, p);
        i = i + 1;
        assert(probe_views(out@) =~= start + install_probes(inst, facts@, i as int));
    }
}

fn push_orphan_probes(out: &mut Vec<ProbeResult>, view: &CatalogView)
    ensures
        probe_views(final(out)@) == probe_views(old(out)@) + orphan_probes(
            view.orphans_view(),
            view.orphans_view().len() as int,
        ),
{
    let ghost start = probe_views(out@);
    let os = view.orphans();
    let mut i: usize = 0;
    while i < os.len()
        invariant
            i <= os@.len(),
            os@ == view.orphans_view(),
            probe_views(out@) == start + orphan_probes(os@, i as int),
        decreases os@.len() - i,
    {
        let p = orphan_probe(os[i].record.install.tap.as_str(), os[i].record.install.catalog_id.as_str());
        push_probe(out, p);
        i = i + 1;
        assert(probe_views(out@) =~= start + orphan_probes(os@, i as int));
    }
}

/// The whole doctor report for a loaded catalog, from what the caller
/// found on the host (see [`HostFacts`]).
pub fn check_install(view: &CatalogView, user_config: &UserConfig, facts: &HostFacts) -> (r: Vec<ProbeResult>)
    requires
        facts.installs@.len() == view.entries_view().filter(is_installed()).len(),
    ensures
        probe_views(r@) == check_install_spec(
            view.entries_view(),
            view.orphans_view(),
            view.companion_view(),
            *user_config,
            *facts,
        ),
{
    let mut out: Vec<ProbeResult> = Vec::new();
    let p = probe_emulator_command(
        "dosbox-staging",
        user_config.emulators.dosbox_staging.command.as_str(),
        ProbeKind::DosboxFlatpak,
        facts.dosbox,
    );
    push_probe(&mut out, p);
    let p = probe_emulator_command("fs-uae", user_config.emulators.fs_uae.command.as_str(), ProbeKind::FsUae, facts.fs_uae);
    push_probe(&mut out, p);
    let ghost s0 = probe_views(out@);
    if any_installed_uses_fluidsynth(view) {
        let p = probe_path_exists(
            "fluidsynth soundfont",
            user_config.sidecars.fluidsynth.soundfont.as_str(),
            ProbeKind::Soundfont,
            facts.soundfont_exists,
        );
        push_probe(&mut out, p);
    }
    let ghost s1 = probe_views(out@);
    if any_amiga_installed(view) {
        match &user_config.emulators.fs_uae.kickstart_path {
            Some(k) => {
                let p = probe_path_exists("fs-uae kickstart_path", k.as_str(), ProbeKind::FsUae, facts.kickstart_exists);
                push_probe(&mut out, p);
            },
            None => {},
        }
    }
    let ghost s2 = probe_views(out@);
    push_install_probes(&mut out, view, &facts.installs);
    push_orphan_probes(&mut out, view);
    push_companion(&mut out, view, &facts.companion_docs);
    assert(probe_views(out@) =~= check_install_spec(
        view.entries_view(),
        view.orphans_view(),
        view.companion_view(),
        *user_config,
        *facts,
    ));
    out
}

} // verus!

verus! {

/// With a Kickstart path configured and an Amiga game installed, the
/// report checks that path: a probe named `fs-uae kickstart_path` whose
/// detail is the path and whose status is `Pass` exactly when the path
/// exists, `Missing` otherwise.
pub proof fn lemma_kickstart_probe(
    es: Seq<CatalogViewEntry>,
    orphans: Seq<crate::install_record::LoadedInstallRecord>,
    comp: Seq<CompanionItem>,
    cfg: UserConfig,
    f: HostFacts,
    i: int,
)
    requires
        cfg.emulators.fs_uae.kickstart_path is Some,
        0 <= i < es.len(),
        es[i].install is Some,
        es[i].catalog.game.platform == Platform::Amiga,
    ensures
        exists|j: int|
            0 <= j < check_install_spec(es, orphans, comp, cfg, f).len() && {
                let p = #[trigger] check_install_spec(es, orphans, comp, cfg, f)[j];
                &&& p.name == "fs-uae kickstart_path"@
                &&& p.detail == Some(cfg.emulators.fs_uae.kickstart_path.unwrap()@)
                &&& (f.kickstart_exists ==> p.status == ProbeStatus::Pass)
                &&& (!f.kickstart_exists ==> p.status == ProbeStatus::Missing)
            },
{
    let installed = es.filter(is_installed());
    es.lemma_filter_contains(is_installed(), i);
    let k = choose|k: int| 0 <= k < installed.len() && installed[k] == es[i];
    assert(any_amiga(installed)) by {
        assert(installed[k].catalog.game.platform == Platform::Amiga);
    }
    let r = check_install_spec(es, orphans, comp, cfg, f);
    let head = seq![
        emulator_probe_spec("dosbox-staging"@, cfg.emulators.dosbox_staging.command@, KindView::DosboxFlatpak, f.dosbox),
        emulator_probe_spec("fs-uae"@, cfg.emulators.fs_uae.command@, KindView::FsUae, f.fs_uae),
    ] + (if any_fluidsynth(installed) {
        seq![path_probe_spec("fluidsynth soundfont"@, cfg.sidecars.fluidsynth.soundfont@, KindView::Soundfont, f.soundfont_exists)]
    } else {
        Seq::empty()
    });
    let kp = path_probe_spec(
        "fs-uae kickstart_path"@,
        cfg.emulators.fs_uae.kickstart_path.unwrap()@,
        KindView::FsUae,
        f.kickstart_exists,
    );
    assert(r[head.len() as int] == kp);
}

} // verus!
