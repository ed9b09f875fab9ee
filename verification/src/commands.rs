//! The payloads the desktop front end exchanges with the launcher, and the
//! decisions behind its commands that do not touch the system.

use vstd::prelude::*;
use crate::catalog::{
    Acquisition, AmigaModel, CatalogEntry, DosboxRuntime, Emulator, FsUaeRuntime, Game, Install,
    Meta, Platform, Runtime,
};
use crate::catalog_view::CatalogViewEntry;
use crate::doctor::{ProbeKind, ProbeResult, ProbeStatus};
use crate::game_install::clone_strings;
use crate::heuristic::HeuristicReport;
use crate::heuristic::amiga::AmigaEntryPoints;
use crate::heuristic::dos::EntryPointKind;
use crate::heuristic::platform::Confidence;
use crate::text::{chars_of, owned, push_str, slice_vec, starts_with, starts_with_exec, str_eq, string_from, string_views};

verus! {

/// One doctor finding as the front end shows it.
pub struct DoctorResult {
    pub name: String,
    pub status: String,
    pub detail: Option<String>,
    pub kind: String,
}

/// The text tag of a probe kind.
pub open spec fn kind_tag_spec(kind: ProbeKind) -> Seq<char> {
    match kind {
        ProbeKind::DosboxFlatpak => "dosbox-flatpak"@,
        ProbeKind::Fluidsynth => "fluidsynth"@,
        ProbeKind::Soundfont => "soundfont"@,
        ProbeKind::Innoextract => "innoextract"@,
        ProbeKind::FsUae => "fs-uae"@,
        ProbeKind::Unzip => "unzip"@,
        ProbeKind::GameInstallDir(id) => "game-install-dir:"@ + id@,
        ProbeKind::Companion(which) => "companion:"@ + which@,
    }
}

/// The tag the front end uses for a probe kind: a fixed name, or a prefix
/// and the game id (or `<tap>/<game>`) it concerns.
pub fn kind_tag(kind: &ProbeKind) -> (r: String)
    ensures
        r@ == kind_tag_spec(*kind),
{
    match kind {
        ProbeKind::DosboxFlatpak => owned("dosbox-flatpak"),
        ProbeKind::Fluidsynth => owned("fluidsynth"),
        ProbeKind::Soundfont => owned("soundfont"),
        ProbeKind::Innoextract => owned("innoextract"),
        ProbeKind::FsUae => owned("fs-uae"),
        ProbeKind::Unzip => owned("unzip"),
        ProbeKind::GameInstallDir(id) => {
            let mut t = owned("game-install-dir:");
            push_str(&mut t, id.as_str());
            t
        },
        ProbeKind::Companion(which) => {
            let mut t = owned("companion:");
            push_str(&mut t, which.as_str());
            t
        },
    }
}

/// The probe kind a tag names, if any.
pub open spec fn parse_kind_tag_spec(tag: Seq<char>) -> Option<ProbeKindView> {
    if tag == "dosbox-flatpak"@ {
        Some(ProbeKindView::DosboxFlatpak)
    } else if tag == "fluidsynth"@ {
        Some(ProbeKindView::Fluidsynth)
    } else if tag == "soundfont"@ {
        Some(ProbeKindView::Soundfont)
    } else if tag == "innoextract"@ {
        Some(ProbeKindView::Innoextract)
    } else if tag == "fs-uae"@ {
        Some(ProbeKindView::FsUae)
    } else if tag == "unzip"@ {
        Some(ProbeKindView::Unzip)
    } else if starts_with(tag, "game-install-dir:"@) {
        Some(ProbeKindView::GameInstallDir(tag.skip(17)))
    } else {
        None
    }
}

/// The mathematical value of a [`ProbeKind`].
pub enum ProbeKindView {
    DosboxFlatpak,
    Fluidsynth,
    Soundfont,
    Innoextract,
    FsUae,
    Unzip,
    GameInstallDir(Seq<char>),
    Companion(Seq<char>),
}

pub open spec fn kind_view(k: ProbeKind) -> ProbeKindView {
    match k {
        ProbeKind::DosboxFlatpak => ProbeKindView::DosboxFlatpak,
        ProbeKind::Fluidsynth => ProbeKindView::Fluidsynth,
        ProbeKind::Soundfont => ProbeKindView::Soundfont,
        ProbeKind::Innoextract => ProbeKindView::Innoextract,
        ProbeKind::FsUae => ProbeKindView::FsUae,
        ProbeKind::Unzip => ProbeKindView::Unzip,
        ProbeKind::GameInstallDir(id) => ProbeKindView::GameInstallDir(id@),
        ProbeKind::Companion(w) => ProbeKindView::Companion(w@),
    }
}

fn strip_prefix(tag: &Vec<char>, prefix: &str) -> (r: Option<String>)
    ensures
        match r {
            Some(rest) => starts_with(tag@, prefix@) && rest@ == tag@.skip(prefix@.len() as int),
            None => !starts_with(tag@, prefix@),
        },
{
    let p = chars_of(prefix);
    if starts_with_exec(tag.as_slice(), p.as_slice()) {
        let rest = slice_vec(tag.as_slice(), p.len(), tag.len());
        assert(rest@ =~= tag@.skip(prefix@.len() as int));
        Some(string_from(rest.as_slice()))
    } else {
        None
    }
}

/// Read a tag back into the probe kind it names.
pub fn parse_kind_tag(tag: &str) -> (r: Option<ProbeKind>)
    ensures
        match r {
            Some(k) => parse_kind_tag_spec(tag@) == Some(kind_view(k)),
            None => parse_kind_tag_spec(tag@) is None,
        },
{
    proof {
        reveal_strlit("game-install-dir:");
    }
    if str_eq(tag, "dosbox-flatpak") {
        Some(ProbeKind::DosboxFlatpak)
    } else if str_eq(tag, "fluidsynth") {
        Some(ProbeKind::Fluidsynth)
    } else if str_eq(tag, "soundfont") {
        Some(ProbeKind::Soundfont)
    } else if str_eq(tag, "innoextract") {
        Some(ProbeKind::Innoextract)
    } else if str_eq(tag, "fs-uae") {
        Some(ProbeKind::FsUae)
    } else if str_eq(tag, "unzip") {
        Some(ProbeKind::Unzip)
    } else {
        let cs = chars_of(tag);
        match strip_prefix(&cs, "game-install-dir:") {
            Some(id) => Some(ProbeKind::GameInstallDir(id)),
            None => None,
        }
    }
}

/// A tag read back gives the kind it was made from; a companion probe's
/// tag names no kind the parser accepts.
pub proof fn lemma_kind_tag_round_trip(kind: ProbeKind)
    ensures
        !(kind is Companion) ==> parse_kind_tag_spec(kind_tag_spec(kind)) == Some(kind_view(kind)),
        kind is Companion ==> parse_kind_tag_spec(kind_tag_spec(kind)) is None,
{
    reveal_strlit("dosbox-flatpak");
    reveal_strlit("fluidsynth");
    reveal_strlit("soundfont");
    reveal_strlit("innoextract");
    reveal_strlit("fs-uae");
    reveal_strlit("unzip");
    reveal_strlit("game-install-dir:");
    reveal_strlit("companion:");
    let t = kind_tag_spec(kind);
    match kind {
        ProbeKind::GameInstallDir(id) => {
            assert(t.take(17) =~= "game-install-dir:"@);
            assert(t.skip(17) =~= id@);
            assert(t.len() >= 17);
            assert(t[0] == 'g');
            assert(t != "dosbox-flatpak"@ && t != "fluidsynth"@ && t != "soundfont"@);
            assert(t != "innoextract"@ && t != "fs-uae"@ && t != "unzip"@) by {
                assert(t.len() >= 17);
            }
        },
        ProbeKind::Companion(w) => {
            assert(t.take(10) =~= "companion:"@);
            assert(t[0] == 'c');
            assert(t[9] == ':');
            assert(t != "dosbox-flatpak"@ && t != "fluidsynth"@ && t != "soundfont"@);
            assert(t != "innoextract"@ && t != "fs-uae"@ && t != "unzip"@);
            assert(!starts_with(t, "game-install-dir:"@)) by {
                if starts_with(t, "game-install-dir:"@) {
                    assert(t.take(17)[0] == 'g');
                }
            }
        },
        _ => {},
    }
}

pub open spec fn status_name(s: ProbeStatus) -> Seq<char> {
    match s {
        ProbeStatus::Pass => "ok"@,
        ProbeStatus::Missing => "missing"@,
        ProbeStatus::Unknown => "unknown"@,
        ProbeStatus::Warn => "warn"@,
    }
}

/// A probe result as the front end shows it.
pub fn doctor_result(r: ProbeResult) -> (d: DoctorResult)
    ensures
        d.name == r.name,
        d.status@ == status_name(r.status),
        d.detail == r.detail,
        d.kind@ == kind_tag_spec(r.kind),
{
    let status = match r.status {
        ProbeStatus::Pass => owned("ok"),
        ProbeStatus::Missing => owned("missing"),
        ProbeStatus::Unknown => owned("unknown"),
        ProbeStatus::Warn => owned("warn"),
    };
    let kind = kind_tag(&r.kind);
    DoctorResult { name: r.name, status, detail: r.detail, kind }
}

/// The front end's state (nothing is kept between commands).
pub struct AppState {}

/// One catalog row, flattened for the front end.
pub struct CatalogEntryDto {
    pub id: String,
    pub title: String,
    pub platform: String,
    pub collection: Option<String>,
    pub collection_name: Option<String>,
    pub year: Option<u32>,
    pub developer: Option<String>,
    pub publisher: Option<String>,
    pub genre: Vec<String>,
    pub tags: Vec<String>,
    pub description: Option<String>,
    pub acquisition: AcquisitionDto,
    pub tap_id: String,
    pub priority: i32,
    pub installed: bool,
    pub install_path: Option<String>,
}

pub struct AcquisitionDto {
    pub gog: Option<String>,
    pub steam: Option<String>,
    pub developer_site: Option<String>,
    pub archive: Option<String>,
    pub amiga_forever: Option<String>,
    pub notes: Option<String>,
}

pub open spec fn platform_name(p: Platform) -> Seq<char> {
    match p {
        Platform::Dos => "dos"@,
        Platform::Amiga => "amiga"@,
    }
}

pub fn platform_str(p: Platform) -> (r: &'static str)
    ensures
        r@ == platform_name(p),
{
    match p {
        Platform::Dos => "dos",
        Platform::Amiga => "amiga",
    }
}

fn clone_opt(o: &Option<String>) -> (r: Option<String>)
    ensures
        r == *o,
{
    match o {
        Some(s) => Some(s.clone()),
        None => None,
    }
}

/// The front end's row for a catalog view entry.
pub fn entry_to_dto(e: &CatalogViewEntry) -> (r: CatalogEntryDto)
    ensures
        r.id == e.catalog.game.id,
        r.title == e.catalog.game.title,
        r.platform@ == platform_name(e.catalog.game.platform),
        r.collection == e.catalog.game.collection,
        r.collection_name == e.catalog.game.collection_name,
        r.year == e.catalog.meta.year,
        r.developer == e.catalog.meta.developer,
        r.publisher == e.catalog.meta.publisher,
        string_views(r.genre@) == string_views(e.catalog.meta.genre@),
        string_views(r.tags@) == string_views(e.catalog.meta.tags@),
        r.description == e.catalog.meta.description,
        r.acquisition.gog == e.catalog.acquisition.gog,
        r.acquisition.steam == e.catalog.acquisition.steam,
        r.acquisition.developer_site == e.catalog.acquisition.developer_site,
        r.acquisition.archive == e.catalog.acquisition.archive,
        r.acquisition.amiga_forever == e.catalog.acquisition.amiga_forever,
        r.acquisition.notes == e.catalog.acquisition.notes,
        r.tap_id == e.tap_id,
        r.priority == e.priority,
        r.installed == e.install is Some,
        r.install_path == match e.install {
            Some(i) => Some(i.install.install_path),
            None => None::<String>,
        },
{
    let acq = &e.catalog.acquisition;
    CatalogEntryDto {
        id: e.catalog.game.id.clone(),
        title: e.catalog.game.title.clone(),
        platform: owned(platform_str(e.catalog.game.platform)),
        collection: clone_opt(&e.catalog.game.collection),
        collection_name: clone_opt(&e.catalog.game.collection_name),
        year: e.catalog.meta.year,
        developer: clone_opt(&e.catalog.meta.developer),
        publisher: clone_opt(&e.catalog.meta.publisher),
        genre: clone_strings(&e.catalog.meta.genre),
        tags: clone_strings(&e.catalog.meta.tags),
        description: clone_opt(&e.catalog.meta.description),
        acquisition: AcquisitionDto {
            gog: clone_opt(&acq.gog),
            steam: clone_opt(&acq.steam),
            developer_site: clone_opt(&acq.developer_site),
            archive: clone_opt(&acq.archive),
            amiga_forever: clone_opt(&acq.amiga_forever),
            notes: clone_opt(&acq.notes),
        },
        tap_id: e.tap_id.clone(),
        priority: e.priority,
        installed: e.install.is_some(),
        install_path: match &e.install {
            Some(i) => Some(i.install.install_path.clone()),
            None => None,
        },
    }
}

/// What an install run came to.
pub enum InstallGameOutcome {
    /// Installed and recorded.
    Installed { record_path: String, install_path: String },
    /// Staged, but files the entry expects are missing; the staged copy is
    /// kept until the user commits or discards it.
    MissingFiles { missing: Vec<String>, install_path: String },
}

/// Only `http://` and `https://` links are opened in the browser.
pub fn validate_external_url(url: &str) -> (r: Result<(), String>)
    ensures
        r is Ok <==> (starts_with(url@, "http://"@) || starts_with(url@, "https://"@)),
        r matches Err(m) ==> m@ == "refusing to open non-http(s) URL: "@ + url@,
{
    let cs = chars_of(url);
    let a = chars_of("http://");
    let b = chars_of("https://");
    if starts_with_exec(cs.as_slice(), a.as_slice()) || starts_with_exec(cs.as_slice(), b.as_slice()) {
        Ok(())
    } else {
        let mut m = owned("refusing to open non-http(s) URL: ");
        push_str(&mut m, url);
        Err(m)
    }
}

pub struct HeuristicReportDto {
    pub platform: Option<String>,
    pub confidence: String,
    pub platform_evidence: Vec<String>,
    pub dos_candidates: Vec<DosCandidateDto>,
    pub amiga: AmigaReportDto,
    pub metadata: DraftMetadataDto,
    pub source_path: String,
}

pub struct DosCandidateDto {
    pub file_name: String,
    pub kind: String,
    pub reason: String,
}

pub enum AmigaReportDto {
    Floppies { files: Vec<String> },
    ManualEntry { reason: String },
}

pub struct DraftMetadataDto {
    pub id: String,
    pub title: String,
}

pub open spec fn confidence_name(c: Confidence) -> Seq<char> {
    match c {
        Confidence::Unknown => "none"@,
        Confidence::Low => "low"@,
        Confidence::Medium => "medium"@,
        Confidence::High => "high"@,
    }
}

pub open spec fn kind_name(k: EntryPointKind) -> Seq<char> {
    match k {
        EntryPointKind::Bat => "bat"@,
        EntryPointKind::Exe => "exe"@,
        EntryPointKind::Com => "com"@,
    }
}

/// The wizard's report, flattened for the front end.
pub fn report_to_dto(report: HeuristicReport, source_path: String) -> (r: HeuristicReportDto)
    ensures
        match report.platform.platform {
            Some(p) => r.platform matches Some(s) && s@ == platform_name(p),
            None => r.platform is None,
        },
        r.confidence@ == confidence_name(report.platform.confidence),
        r.platform_evidence == report.platform.evidence,
        r.dos_candidates@.len() == report.dos@.len(),
        forall|i: int| 0 <= i < report.dos@.len() ==> {
            let c = #[trigger] r.dos_candidates@[i];
            &&& c.file_name == report.dos@[i].file_name
            &&& c.kind@ == kind_name(report.dos@[i].kind)
            &&& c.reason == report.dos@[i].reason
        },
        match report.amiga {
            AmigaEntryPoints::Floppies(v) => r.amiga matches AmigaReportDto::Floppies { files } && files == v,
            AmigaEntryPoints::ManualEntry { reason } => r.amiga matches AmigaReportDto::ManualEntry { reason: why } && why == reason,
        },
        r.metadata.id == report.metadata.id,
        r.metadata.title == report.metadata.title,
        r.source_path == source_path,
{
    let platform = match report.platform.platform {
        Some(p) => Some(owned(platform_str(p))),
        None => None,
    };
    let confidence = match report.platform.confidence {
        Confidence::Unknown => owned("none"),
        Confidence::Low => owned("low"),
        Confidence::Medium => owned("medium"),
        Confidence::High => owned("high"),
    };
    let mut dos_candidates: Vec<DosCandidateDto> = Vec::new();
    let mut i: usize = 0;
    while i < report.dos.len()
        invariant
            i <= report.dos@.len(),
            dos_candidates@.len() == i,
            forall|k: int| 0 <= k < i ==> {
                let c = #[trigger] dos_candidates@[k];
                &&& c.file_name == report.dos@[k].file_name
                &&& c.kind@ == kind_name(report.dos@[k].kind)
                &&& c.reason == report.dos@[k].reason
            },
        decreases report.dos@.len() - i,
    {
        let c = &report.dos[i];
        let kind = match c.kind {
            EntryPointKind::Bat => owned("bat"),
            EntryPointKind::Exe => owned("exe"),
            EntryPointKind::Com => owned("com"),
        };
        dos_candidates.push(DosCandidateDto { file_name: c.file_name.clone(), kind, reason: c.reason.clone() });
        i = i + 1;
    }
    let amiga = match report.amiga {
        AmigaEntryPoints::Floppies(v) => AmigaReportDto::Floppies { files: v },
        AmigaEntryPoints::ManualEntry { reason } => AmigaReportDto::ManualEntry { reason },
    };
    HeuristicReportDto {
        platform,
        confidence,
        platform_evidence: report.platform.evidence,
        dos_candidates,
        amiga,
        metadata: DraftMetadataDto { id: report.metadata.id, title: report.metadata.title },
        source_path,
    }
}

/// The wizard form as the front end submits it.
pub struct SaveUserManifestRequest {
    pub id: String,
    pub title: String,
    pub platform: String,
    pub install_path: String,
    pub entry: Option<String>,
    pub floppies: Option<Vec<String>>,
    pub year: Option<u32>,
    pub developer: Option<String>,
    pub publisher: Option<String>,
    pub description: Option<String>,
}

pub struct SaveUserManifestResponse {
    pub id: String,
    pub manifest_path: String,
    pub config_path: Option<String>,
    pub install_record_path: String,
}

pub open spec fn dos_runtime_from(e: CatalogEntry, req: &SaveUserManifestRequest) -> bool {
    &&& req.entry matches Some(x)
    &&& e.runtime.emulator == Emulator::DosboxStaging
    &&& e.runtime.fs_uae is None
    &&& e.runtime.dosbox matches Some(d)
    &&& d.entry == x
    &&& d.config@ == req.id@ + ".conf"@
    &&& d.mount@ == "c"@
}

pub open spec fn amiga_runtime_from(e: CatalogEntry, req: &SaveUserManifestRequest) -> bool {
    &&& e.runtime.emulator == Emulator::FsUae
    &&& e.runtime.dosbox is None
    &&& e.runtime.fs_uae matches Some(f)
    &&& f.model == AmigaModel::A500
    &&& f.config is None
    &&& f.hard_drives@.len() == 0
    &&& string_views(f.floppies@) == match req.floppies {
        Some(v) => string_views(v@),
        None => Seq::empty(),
    }
}

/// The catalog entry a submitted wizard form describes.
pub fn draft_from_request(req: &SaveUserManifestRequest) -> (r: Result<CatalogEntry, String>)
    ensures
        match r {
            Ok(e) => {
                &&& (req.platform@ == "dos"@ || req.platform@ == "amiga"@)
                &&& e.schema_version == 1
                &&& e.game.id == req.id && e.game.title == req.title
                &&& e.game.platform == (if req.platform@ == "dos"@ { Platform::Dos } else { Platform::Amiga })
                &&& e.game.collection is None && e.game.collection_name is None
                &&& e.meta.year == req.year && e.meta.developer == req.developer
                &&& e.meta.publisher == req.publisher && e.meta.description == req.description
                &&& e.meta.genre@.len() == 0 && e.meta.tags@.len() == 0
                &&& crate::draft::blank_parts(Meta { year: None, developer: None, publisher: None, description: None, ..e.meta }, e.acquisition, e.install)
                &&& e.runtime.sidecars@.len() == 0
                &&& req.platform@ == "dos"@ ==> dos_runtime_from(e, req)
                &&& req.platform@ == "amiga"@ ==> amiga_runtime_from(e, req)
            },
            Err(m) => if req.platform@ == "dos"@ {
                req.entry is None && m@ == "DOS entry: missing `entry` field"@
            } else {
                req.platform@ != "amiga"@ && m@ == "unknown platform: "@ + req.platform@
            },
        },
{
    proof {
        reveal_strlit("dos");
        reveal_strlit("amiga");
        assert("dos"@.len() == 3);
        assert("amiga"@.len() == 5);
        assert("dos"@ != "amiga"@);
    }
    let platform = if str_eq(req.platform.as_str(), "dos") {
        Platform::Dos
    } else if str_eq(req.platform.as_str(), "amiga") {
        Platform::Amiga
    } else {
        let mut m = owned("unknown platform: ");
        push_str(&mut m, req.platform.as_str());
        return Err(m);
    };
    let mut meta = Meta::default();
    meta.year = req.year;
    meta.developer = clone_opt(&req.developer);
    meta.publisher = clone_opt(&req.publisher);
    meta.description = clone_opt(&req.description);
    let runtime = match platform {
        Platform::Dos => {
            let entry = match &req.entry {
                Some(x) => x.clone(),
                None => {
                    return Err(owned("DOS entry: missing `entry` field"));
                },
            };
            let mut config = req.id.clone();
            push_str(&mut config, ".conf");
            Runtime {
                emulator: Emulator::DosboxStaging,
                sidecars: Vec::new(),
                dosbox: Some(DosboxRuntime { config, entry, mount: owned("c") }),
                fs_uae: None,
            }
        },
        Platform::Amiga => {
            let floppies = match &req.floppies {
                Some(v) => clone_strings(v),
                None => {
                    let none: Vec<String> = Vec::new();
                    assert(string_views(none@) =~= Seq::<Seq<char>>::empty());
                    none
                },
            };
            Runtime {
                emulator: Emulator::FsUae,
                sidecars: Vec::new(),
                dosbox: None,
                fs_uae: Some(
                    FsUaeRuntime { model: AmigaModel::A500, config: None, floppies, hard_drives: Vec::new() },
                ),
            }
        },
    };
    Ok(
        CatalogEntry {
            schema_version: 1,
            game: Game {
                id: req.id.clone(),
                title: req.title.clone(),
                platform,
                collection: None,
                collection_name: None,
            },
            meta,
            acquisition: Acquisition::default(),
            install: Install::default(),
            runtime,
        },
    )
}

/// The ids of the view's entries, split into those of subscribed taps
/// and those of the user tap.
pub fn split_ids(entries: &Vec<CatalogViewEntry>) -> (r: (Vec<String>, Vec<String>))
    ensures
        string_views(r.0@) == ids_where(entries@, false),
        string_views(r.1@) == ids_where(entries@, true),
{
    let mut bundled: Vec<String> = Vec::new();
    let mut user: Vec<String> = Vec::new();
    let mut i: usize = 0;
    while i < entries.len()
        invariant
            i <= entries@.len(),
            string_views(bundled@) == ids_where(entries@.take(i as int), false),
            string_views(user@) == ids_where(entries@.take(i as int), true),
        decreases entries@.len() - i,
    {
        assert(entries@.take(i + 1).drop_last() =~= entries@.take(i as int));
        let e = &entries[i];
        let ghost b0 = bundled@;
        let ghost u0 = user@;
        if str_eq(e.tap_id.as_str(), "local") {
            user.push(e.catalog.game.id.clone());
            assert(string_views(user@) =~= string_views(u0).push(e.catalog.game.id@));
        } else {
            bundled.push(e.catalog.game.id.clone());
            assert(string_views(bundled@) =~= string_views(b0).push(e.catalog.game.id@));
        }
        i = i + 1;
    }
    assert(entries@.take(entries@.len() as int) =~= entries@);
    (bundled, user)
}

/// The game ids of the entries of the user tap (`local == true`) or of the
/// other taps, in order.
pub open spec fn ids_where(es: Seq<CatalogViewEntry>, local: bool) -> Seq<Seq<char>>
    decreases es.len(),
{
    if es.len() == 0 {
        Seq::empty()
    } else if (es.last().tap_id@ == "local"@) == local {
        ids_where(es.drop_last(), local).push(es.last().catalog.game.id@)
    } else {
        ids_where(es.drop_last(), local)
    }
}

pub struct SubmitManifestResponse {
    pub content: String,
    pub warnings: Vec<String>,
    pub github_url: String,
    pub target_path: String,
}

/// Where a user-tap entry is submitted: the page that creates the file
/// upstream, and its path in the tap. Entries of subscribed taps are not
/// submission candidates.
pub fn submission_target(entry: &CatalogViewEntry) -> (r: Result<(String, String), String>)
    ensures
        match r {
            Ok((url, path)) => entry.tap_id@ == "local"@
                && url@ == crate::export::new_file_url_spec(platform_name(entry.catalog.game.platform), "main"@)
                && path@ == "catalog/"@ + platform_name(entry.catalog.game.platform) + "/"@
                    + entry.catalog.game.id@ + ".toml"@,
            Err(m) => entry.tap_id@ != "local"@ && m@ == "\""@ + entry.catalog.game.id@
                + "\" belongs to a subscribed tap; only user-created entries are submission candidates"@,
        },
{
    if !str_eq(entry.tap_id.as_str(), "local") {
        let mut m = owned("\"");
        push_str(&mut m, entry.catalog.game.id.as_str());
        push_str(&mut m, "\" belongs to a subscribed tap; only user-created entries are submission candidates");
        return Err(m);
    }
    let platform = platform_str(entry.catalog.game.platform);
    let url = crate::export::github_new_file_url(platform, "main");
    let mut path = owned("catalog/");
    push_str(&mut path, platform);
    push_str(&mut path, "/");
    push_str(&mut path, entry.catalog.game.id.as_str());
    push_str(&mut path, ".toml");
    Ok((url, path))
}

/// One tap as the tap manager lists it.
pub struct TapInfo {
    pub id: String,
    pub source: String,
    pub priority: Option<u32>,
    pub cache_ok: bool,
    pub entry_count: usize,
    pub is_local: bool,
}

/// The user tap's row in the tap manager, with its entry count.
pub fn local_tap_info(entry_count: usize) -> (r: TapInfo)
    ensures
        r.id@ == "local"@,
        r.source@ == "(your custom games)"@,
        r.priority is None,
        r.cache_ok,
        r.entry_count == entry_count,
        r.is_local,
{
    TapInfo {
        id: owned("local"),
        source: owned("(your custom games)"),
        priority: None,
        cache_ok: true,
        entry_count,
        is_local: true,
    }
}

/// A subscribed tap's row in the tap manager.
pub fn subscribed_tap_info(sub: &crate::subscriptions::TapSubscription, cache_ok: bool, entry_count: usize) -> (r: TapInfo)
    ensures
        r.id == sub.id,
        r.source == sub.source,
        r.priority == Some(sub.priority),
        r.cache_ok == cache_ok,
        r.entry_count == (if cache_ok { entry_count } else { 0 }),
        !r.is_local,
{
    TapInfo {
        id: sub.id.clone(),
        source: sub.source.clone(),
        priority: Some(sub.priority),
        cache_ok,
        entry_count: if cache_ok {
            entry_count
        } else {
            0
        },
        is_local: false,
    }
}

} // verus!
