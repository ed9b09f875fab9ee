//! The manifest wizard: from a directory the user points at, a draft
//! catalog entry (heuristics, then the draft composer), the places it will
//! be written in the user tap, and where an existing user entry's files
//! are. Prompting, editing and writing files are the program's work.

pub mod editor;
pub mod prompts;

use vstd::prelude::*;
use crate::catalog::{CatalogEntry, Platform};
use crate::draft::{from_report, DraftError};
use crate::draft::dos::compose_post as dos_post;
use crate::draft::amiga::compose_post as amiga_post;
use crate::heuristic::{analyze, HeuristicReport, ListedEntry};
use crate::heuristic::amiga::amiga_detect_spec;
use crate::heuristic::dos::{cand_views, dos_detect_spec};
use crate::heuristic::metadata::extract_spec_view;
use crate::heuristic::platform::detect_spec_view;
use crate::paths::{join, join_spec};
use crate::tap::TapError;
use crate::text::{owned, push_str, str_eq, string_views};

pub use self::prompts::{Prompter, ScriptedPrompter};

verus! {

#[derive(Debug)]
pub enum WizardError {
    SourceMissing(String),
    SourceNotDir(String),
    UserEntryExists(String),
    BundledEntryExists(String),
    Draft(DraftError),
    Tap(TapError),
    Validation(String),
    Io(String),
    Cancelled,
    Editor(String),
}

/// What the wizard needs to add a user-created entry.
pub struct AddOptions<'a> {
    /// The game directory being added; the install record points at it.
    pub source: String,
    /// Where the user tap lives.
    pub user_tap_root: String,
    /// Where install records live.
    pub installs_dir: String,
    /// A platform that overrides the heuristic's verdict.
    pub platform_override: Option<Platform>,
    /// Entry ids of the bundled taps, for collision checks.
    pub bundled_ids: &'a [String],
    /// Entry ids already in the user tap, for collision checks.
    pub user_ids: &'a [String],
}

/// What a successful add wrote.
#[derive(Debug, Clone, PartialEq, Eq)]
pub struct AddResult {
    pub manifest_path: String,
    pub config_path: Option<String>,
    pub install_record_path: String,
    pub id: String,
    pub platform: Platform,
}

/// Is `rep` the analysis of the listing, with the platform overridden
/// where the user chose one?
pub open spec fn report_fits(
    rep: HeuristicReport,
    dir: Seq<char>,
    es: Seq<ListedEntry>,
    startup: bool,
    ov: Option<Platform>,
) -> bool {
    let d = detect_spec_view(es, startup);
    &&& rep.platform.platform == (match ov {
        Some(p) => Some(p),
        None => d.0,
    })
    &&& rep.platform.confidence == d.1
    &&& string_views(rep.platform.evidence@) == d.2
    &&& cand_views(rep.dos@) == dos_detect_spec(dir, es)
    &&& rep.amiga.view() == amiga_detect_spec(es)
    &&& rep.metadata.view() == extract_spec_view(dir)
}

/// Is `r` what the draft composer makes of `rep`?
pub open spec fn drafted(rep: HeuristicReport, r: Result<CatalogEntry, DraftError>) -> bool {
    match rep.platform.platform {
        Some(Platform::Dos) => dos_post(&rep.metadata, rep.dos@, r),
        Some(Platform::Amiga) => amiga_post(&rep.metadata, rep.amiga, r),
        None => r matches Err(DraftError::UnknownPlatform),
    }
}

/// Analyse the source directory and draft an entry from it, without
/// prompting or writing. `exists` and `is_dir` describe `source`;
/// `entries` is its listing and `startup_sequence` says whether it holds
/// an Amiga startup sequence.
pub fn prepare(
    source: &str,
    exists: bool,
    is_dir: bool,
    entries: &Vec<ListedEntry>,
    startup_sequence: bool,
    platform_override: Option<Platform>,
) -> (r: Result<(HeuristicReport, CatalogEntry), WizardError>)
    requires
        exists && is_dir ==> crate::heuristic::listing_sorted(entries@)
            && crate::heuristic::platform::scores_fit_spec(entries@, startup_sequence),
    ensures
        !exists ==> (r matches Err(WizardError::SourceMissing(p)) && p@ == source@),
        exists && !is_dir ==> (r matches Err(WizardError::SourceNotDir(p)) && p@ == source@),
        exists && is_dir ==> match r {
            Ok((rep, d)) => report_fits(rep, source@, entries@, startup_sequence, platform_override)
                && drafted(rep, Ok(d)),
            Err(WizardError::Draft(e)) => exists|rep: HeuristicReport|
                report_fits(rep, source@, entries@, startup_sequence, platform_override) && drafted(rep, Err(e)),
            Err(_) => false,
        },
{
    if !exists {
        return Err(WizardError::SourceMissing(owned(source)));
    }
    if !is_dir {
        return Err(WizardError::SourceNotDir(owned(source)));
    }
    let mut report = analyze(source, entries, startup_sequence);
    match platform_override {
        Some(p) => {
            report.platform.platform = Some(p);
        },
        None => {},
    }
    match from_report(&report) {
        Ok(d) => Ok((report, d)),
        Err(e) => {
            assert(report_fits(report, source@, entries@, startup_sequence, platform_override) && drafted(report, Err(e)));
            Err(WizardError::Draft(e))
        },
    }
}

/// Check a (possibly edited) draft against the catalog rules, as the file
/// it will be written to would be checked.
pub fn validate(draft: &CatalogEntry) -> (r: Result<(), WizardError>)
    ensures
        r is Ok <==> crate::catalog::valid_entry(*draft),
{
    match crate::catalog::validate(draft, "<wizard>/catalog.toml") {
        Ok(()) => Ok(()),
        Err(_) => Err(WizardError::Validation(owned("the draft breaks a catalog rule"))),
    }
}

/// Where an accepted draft goes: the platform directory of the user tap's
/// catalog, the manifest in it, and for DOS the DOSBox config beside it.
pub struct CommitPlan {
    pub catalog_dir: String,
    pub manifest_path: String,
    pub config_path: Option<String>,
    pub id: String,
    pub platform: Platform,
}

pub open spec fn platform_dir(p: Platform) -> Seq<char> {
    match p {
        Platform::Dos => "dos"@,
        Platform::Amiga => "amiga"@,
    }
}

pub open spec fn catalog_dir_spec(root: Seq<char>, p: Platform) -> Seq<char> {
    join_spec(join_spec(root, "catalog"@), platform_dir(p))
}

pub open spec fn listed(ids: Seq<String>, id: Seq<char>) -> bool {
    exists|i: int| 0 <= i < ids.len() && (#[trigger] ids[i])@ == id
}

fn is_listed(ids: &[String], id: &str) -> (r: bool)
    ensures
        r == listed(ids@, id@),
{
    let mut i: usize = 0;
    while i < ids.len()
        invariant
            i <= ids@.len(),
            forall|j: int| 0 <= j < i ==> (#[trigger] ids@[j])@ != id@,
        decreases ids@.len() - i,
    {
        if str_eq(ids[i].as_str(), id) {
            return true;
        }
        i = i + 1;
    }
    false
}

fn with_ext(id: &str, ext: &str) -> (r: String)
    ensures
        r@ == id@ + ext@,
{
    let mut r = owned(id);
    push_str(&mut r, ext);
    r
}

/// Where a draft is written, once its id collides with no entry of the
/// user tap (checked first) and none of the bundled taps.
pub fn commit_plan(opts: &AddOptions, draft: &CatalogEntry) -> (r: Result<CommitPlan, WizardError>)
    ensures
        listed(opts.user_ids@, draft.game.id@) ==> (r matches Err(WizardError::UserEntryExists(i)) && i@ == draft.game.id@),
        !listed(opts.user_ids@, draft.game.id@) && listed(opts.bundled_ids@, draft.game.id@) ==> (r matches Err(
            WizardError::BundledEntryExists(i),
        ) && i@ == draft.game.id@),
        !listed(opts.user_ids@, draft.game.id@) && !listed(opts.bundled_ids@, draft.game.id@) ==> (r matches Ok(p) && {
            let dir = catalog_dir_spec(opts.user_tap_root@, draft.game.platform);
            &&& p.catalog_dir@ == dir
            &&& p.manifest_path@ == join_spec(dir, draft.game.id@ + ".toml"@)
            &&& match draft.game.platform {
                Platform::Dos => p.config_path matches Some(c) && c@ == join_spec(dir, draft.game.id@ + ".conf"@),
                Platform::Amiga => p.config_path is None,
            }
            &&& p.id@ == draft.game.id@
            &&& p.platform == draft.game.platform
        }),
{
    let id = draft.game.id.as_str();
    if is_listed(opts.user_ids, id) {
        return Err(WizardError::UserEntryExists(owned(id)));
    }
    if is_listed(opts.bundled_ids, id) {
        return Err(WizardError::BundledEntryExists(owned(id)));
    }
    let catalog = join(opts.user_tap_root.as_str(), "catalog");
    let dir = match draft.game.platform {
        Platform::Dos => join(catalog.as_str(), "dos"),
        Platform::Amiga => join(catalog.as_str(), "amiga"),
    };
    let manifest_path = join(dir.as_str(), with_ext(id, ".toml").as_str());
    let config_path = match draft.game.platform {
        Platform::Dos => Some(join(dir.as_str(), with_ext(id, ".conf").as_str())),
        Platform::Amiga => None,
    };
    Ok(CommitPlan { catalog_dir: dir, manifest_path, config_path, id: owned(id), platform: draft.game.platform })
}

/// What a finished add reports: the plan's paths and the install record
/// written for it.
pub fn add_result(plan: CommitPlan, install_record_path: String) -> (r: AddResult)
    ensures
        r.manifest_path == plan.manifest_path,
        r.config_path == plan.config_path,
        r.install_record_path == install_record_path,
        r.id == plan.id,
        r.platform == plan.platform,
{
    AddResult {
        manifest_path: plan.manifest_path,
        config_path: plan.config_path,
        install_record_path,
        id: plan.id,
        platform: plan.platform,
    }
}

/// The on-disk files of a user-created entry; a missing file is `None`.
#[derive(Debug, Clone, PartialEq, Eq)]
pub struct EntryLocations {
    pub manifest_path: Option<String>,
    pub config_path: Option<String>,
    pub install_record_path: Option<String>,
}

/// The files [`locate`] looks at, whether each is a regular file.
pub struct LocateFacts {
    /// `<root>/catalog/dos/<id>.toml`
    pub dos_manifest: bool,
    /// `<root>/catalog/dos/<id>.conf`
    pub dos_config: bool,
    /// `<root>/catalog/amiga/<id>.toml`
    pub amiga_manifest: bool,
    /// `<root>/catalog/amiga/<id>.conf`
    pub amiga_config: bool,
    /// `<installs>/<id>.toml`
    pub install_record: bool,
}

pub open spec fn opt_str(o: Option<String>) -> Option<Seq<char>> {
    match o {
        Some(s) => Some(s@),
        None => None,
    }
}

pub open spec fn locate_spec(id: Seq<char>, root: Seq<char>, installs: Seq<char>, f: LocateFacts) -> (
    Option<Seq<char>>,
    Option<Seq<char>>,
    Option<Seq<char>>,
) {
    let dos = catalog_dir_spec(root, Platform::Dos);
    let amiga = catalog_dir_spec(root, Platform::Amiga);
    let (m, c) = if f.dos_manifest {
        (
            Some(join_spec(dos, id + ".toml"@)),
            if f.dos_config { Some(join_spec(dos, id + ".conf"@)) } else { None },
        )
    } else if f.amiga_manifest {
        (
            Some(join_spec(amiga, id + ".toml"@)),
            if f.amiga_config { Some(join_spec(amiga, id + ".conf"@)) } else { None },
        )
    } else {
        (None, None)
    };
    (m, c, if f.install_record { Some(join_spec(installs, id + ".toml"@)) } else { None })
}

/// The manifest (looked for under `dos`, then `amiga`), its config beside
/// it, and the install record of the user-created entry `id`.
pub fn locate(id: &str, user_tap_root: &str, installs_dir: &str, facts: &LocateFacts) -> (r: EntryLocations)
    ensures
        (opt_str(r.manifest_path), opt_str(r.config_path), opt_str(r.install_record_path))
            == locate_spec(id@, user_tap_root@, installs_dir@, *facts),
{
    let catalog = join(user_tap_root, "catalog");
    let toml = with_ext(id, ".toml");
    let conf = with_ext(id, ".conf");
    let (manifest_path, config_path) = if facts.dos_manifest {
        let dir = join(catalog.as_str(), "dos");
        let c = if facts.dos_config { Some(join(dir.as_str(), conf.as_str())) } else { None };
        (Some(join(dir.as_str(), toml.as_str())), c)
    } else if facts.amiga_manifest {
        let dir = join(catalog.as_str(), "amiga");
        let c = if facts.amiga_config { Some(join(dir.as_str(), conf.as_str())) } else { None };
        (Some(join(dir.as_str(), toml.as_str())), c)
    } else {
        (None, None)
    };
    let install_record_path = if facts.install_record {
        Some(join(installs_dir, toml.as_str()))
    } else {
        None
    };
    EntryLocations { manifest_path, config_path, install_record_path }
}

} // verus!

verus! {

impl WizardError {
    /// The text of the error.
    pub open spec fn message_view(&self) -> Seq<char> {
        match self {
            WizardError::SourceMissing(p) => "source directory not found: "@ + p@,
            WizardError::SourceNotDir(p) => "source path is not a directory: "@ + p@,
            WizardError::UserEntryExists(id) => "a user-tap entry with id "@ + crate::text::debug_quoted(id@) + " already exists; remove it first"@,
            WizardError::BundledEntryExists(id) => "id "@ + crate::text::debug_quoted(id@) + " is already used by the bundled catalog; pick a different one"@,
            WizardError::Draft(d) => d.message_view(),
            WizardError::Tap(t) => t.message_view(),
            WizardError::Validation(m) => "validation failed: "@ + m@,
            WizardError::Io(m) => "write failed: "@ + m@,
            WizardError::Cancelled => "prompt cancelled"@,
            WizardError::Editor(m) => "editor failed: "@ + m@,
        }
    }

    /// The message shown for the error.
    pub fn message(&self) -> (r: String)
        ensures
            r@ == self.message_view(),
    {
        match self {
            WizardError::SourceMissing(p) => {
                let mut r = crate::text::owned("source directory not found: ");
                crate::text::push_str(&mut r, p.as_str());
                r
            },
            WizardError::SourceNotDir(p) => {
                let mut r = crate::text::owned("source path is not a directory: ");
                crate::text::push_str(&mut r, p.as_str());
                r
            },
            WizardError::UserEntryExists(id) => {
                let mut r = crate::text::owned("a user-tap entry with id ");
                crate::text::push_debug_quoted(&mut r, id.as_str());
                crate::text::push_str(&mut r, " already exists; remove it first");
                r
            },
            WizardError::BundledEntryExists(id) => {
                let mut r = crate::text::owned("id ");
                crate::text::push_debug_quoted(&mut r, id.as_str());
                crate::text::push_str(&mut r, " is already used by the bundled catalog; pick a different one");
                r
            },
            WizardError::Draft(d) => {
                let r = d.message();
                r
            },
            WizardError::Tap(t) => {
                let r = t.message();
                r
            },
            WizardError::Validation(m) => {
                let mut r = crate::text::owned("validation failed: ");
                crate::text::push_str(&mut r, m.as_str());
                r
            },
            WizardError::Io(m) => {
                let mut r = crate::text::owned("write failed: ");
                crate::text::push_str(&mut r, m.as_str());
                r
            },
            WizardError::Cancelled => {
                let mut r = crate::text::owned("prompt cancelled");
                r
            },
            WizardError::Editor(m) => {
                let mut r = crate::text::owned("editor failed: ");
                crate::text::push_str(&mut r, m.as_str());
                r
            },
        }
    }
}

} // verus!
