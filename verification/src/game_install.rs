//! Installing a game into the library: where it goes, how the source is
//! staged next to its destination, and when the staged copy may replace the
//! destination. The filesystem work itself is done by the caller; the
//! decisions are made here from what the caller found.

use vstd::prelude::*;
use crate::catalog::{valid_id, CatalogEntry, Platform};
use crate::paths::{
    ends_with_path, extension, extension_spec, file_name, file_name_spec, join, join_spec, parent,
    components, normal_pieces, parent_spec, path_ends_with, trim_tail,
};
use crate::setup::command_views;
use crate::catalog_view::lemma_filter_step;
use crate::text::{
    chars_of, join_sep, join_strings, lower_seq, lower_vec, owned, push_str, seq_eq, split_exec,
    split_on, string_from, string_views, views, split_from, last_index_of, lemma_last_index_of,
    lemma_split_from_sep, lemma_split_from_whole,
};

verus! {

/// What the installer needs to know about a catalog entry.
pub struct EntrySpec {
    pub id: String,
    pub platform: Platform,
    pub subdir: Option<String>,
    pub floppies: Vec<String>,
    pub hard_drives: Vec<String>,
}

pub open spec fn opt_str(o: Option<String>) -> Option<Seq<char>> {
    match o {
        Some(s) => Some(s@),
        None => None,
    }
}

impl EntrySpec {
    /// The installer's view of `entry`: its id, platform and install
    /// subdirectory, and its declared floppy and hard-drive images.
    pub fn from_entry(entry: &CatalogEntry) -> (r: Self)
        ensures
            r.id@ == entry.game.id@,
            r.platform == entry.game.platform,
            opt_str(r.subdir) == opt_str(entry.install.subdir),
            match entry.runtime.fs_uae {
                Some(fs) => string_views(r.floppies@) == string_views(fs.floppies@)
                    && string_views(r.hard_drives@) == string_views(fs.hard_drives@),
                None => r.floppies@.len() == 0 && r.hard_drives@.len() == 0,
            },
    {
        let (floppies, hard_drives) = match &entry.runtime.fs_uae {
            Some(fs) => (clone_strings(&fs.floppies), clone_strings(&fs.hard_drives)),
            None => (Vec::new(), Vec::new()),
        };
        EntrySpec {
            id: entry.game.id.clone(),
            platform: entry.game.platform,
            subdir: match &entry.install.subdir {
                Some(s) => Some(s.clone()),
                None => None,
            },
            floppies,
            hard_drives,
        }
    }
}

pub fn clone_strings(v: &Vec<String>) -> (r: Vec<String>)
    ensures
        string_views(r@) == string_views(v@),
{
    let mut r: Vec<String> = Vec::new();
    let mut i: usize = 0;
    while i < v.len()
        invariant
            i <= v@.len(),
            string_views(r@) == string_views(v@).take(i as int),
        decreases v@.len() - i,
    {
        let ghost before = r@;
        r.push(v[i].clone());
        assert(string_views(r@) =~= string_views(before).push(v@[i as int]@));
        assert(string_views(r@) =~= string_views(v@).take(i + 1));
        i = i + 1;
    }
    assert(string_views(v@).take(v@.len() as int) =~= string_views(v@));
    r
}

#[derive(Debug, Clone, Copy, PartialEq, Eq, Structural)]
pub enum SourceKind {
    /// An already-installed directory, copied as is.
    Directory,
    /// A DOS installer `.exe`, unpacked with `innoextract`.
    DosInstaller,
    /// An Amiga disk image (`.adf`, `.hdf`, `.rp9`).
    AmigaImage,
}

#[derive(Debug, Clone, PartialEq, Eq)]
pub enum CopyAction {
    /// Commands to run in order, each as program and arguments.
    Commands(Vec<Vec<String>>),
    /// Extract this `.rp9` archive into the staging directory.
    UnzipRp9 { archive: String },
}

pub enum ActionView {
    Commands(Seq<Seq<Seq<char>>>),
    UnzipRp9(Seq<char>),
}

impl CopyAction {
    pub open spec fn view(&self) -> ActionView {
        match self {
            CopyAction::Commands(c) => ActionView::Commands(command_views(c@)),
            CopyAction::UnzipRp9 { archive } => ActionView::UnzipRp9(archive@),
        }
    }
}

#[derive(Debug, Clone, PartialEq, Eq)]
pub struct InstallLocations {
    /// The final directory, `<base>/<id>`.
    pub dest_dir: String,
    /// The sibling staging directory, `<base>/.<id>.staging`.
    pub staging_dir: String,
    /// Where the game lives once installed (`dest_dir` plus the subdir).
    pub install_path: String,
    /// The same inside the staging directory.
    pub staged_install_path: String,
}

#[derive(Debug, Clone, PartialEq, Eq)]
pub struct InstallPlan {
    pub kind: SourceKind,
    pub dest_dir: String,
    pub staging_dir: String,
    pub install_path: String,
    pub staged_install_path: String,
    pub action: CopyAction,
}

#[derive(Debug)]
pub enum InstallError {
    SourceMissing { path: String },
    UnsupportedSource { path: String, platform: Platform, hint: &'static str },
    DestinationOccupied { path: String },
    IncompleteStaging { path: String },
    CommandFailed { code: i32 },
    CommandSpawn { message: String },
    Io { path: String, message: String },
    Rp9 { path: String, message: String },
}

pub open spec fn opt_ref(o: Option<&str>) -> Option<Seq<char>> {
    match o {
        Some(s) => Some(s@),
        None => None,
    }
}

pub open spec fn join_subdir_spec(dir: Seq<char>, subdir: Option<Seq<char>>) -> Seq<char> {
    match subdir {
        Some(s) => join_spec(dir, s),
        None => dir,
    }
}

pub open spec fn staging_name(id: Seq<char>) -> Seq<char> {
    seq!['.'] + id + ".staging"@
}

fn join_subdir(dir: &String, subdir: Option<&str>) -> (r: String)
    ensures
        r@ == join_subdir_spec(dir@, opt_ref(subdir)),
{
    match subdir {
        Some(s) => join(dir.as_str(), s),
        None => dir.clone(),
    }
}

/// Where game `id` installs under `dest_base`, and where it is staged.
pub fn locations(id: &str, subdir: Option<&str>, dest_base: &str) -> (r: InstallLocations)
    ensures
        r.dest_dir@ == join_spec(dest_base@, id@),
        r.staging_dir@ == join_spec(dest_base@, staging_name(id@)),
        r.install_path@ == join_subdir_spec(join_spec(dest_base@, id@), opt_ref(subdir)),
        r.staged_install_path@ == join_subdir_spec(
            join_spec(dest_base@, staging_name(id@)),
            opt_ref(subdir),
        ),
{
    let dest_dir = join(dest_base, id);
    let mut name = owned(".");
    push_str(&mut name, id);
    push_str(&mut name, ".staging");
    proof {
        reveal_strlit(".");
    }
    assert(name@ =~= staging_name(id@));
    let staging_dir = join(dest_base, name.as_str());
    let install_path = join_subdir(&dest_dir, subdir);
    let staged_install_path = join_subdir(&staging_dir, subdir);
    InstallLocations { dest_dir, staging_dir, install_path, staged_install_path }
}

/// `mkdir -p <dir>`.
pub open spec fn mkdir_p_spec(dir: Seq<char>) -> Seq<Seq<char>> {
    seq!["mkdir"@, "-p"@, dir]
}

fn mkdir_p(dir: &String) -> (r: Vec<String>)
    ensures
        string_views(r@) == mkdir_p_spec(dir@),
{
    let r = vec![owned("mkdir"), owned("-p"), dir.clone()];
    assert(string_views(r@) =~= mkdir_p_spec(dir@));
    r
}

/// The lowercased extension of `source`, or empty.
pub open spec fn lower_ext_of(source: Seq<char>) -> Seq<char> {
    match extension_spec(source) {
        Some(e) => lower_seq(e),
        None => Seq::empty(),
    }
}

fn lower_ext_exec(source: &str) -> (r: Vec<char>)
    ensures
        r@ == lower_ext_of(source@),
{
    match extension(source) {
        Some(e) => lower_vec(chars_of(e.as_str()).as_slice()),
        None => Vec::new(),
    }
}

/// What kind of source `source` is; `None` when the platform cannot take
/// it.
pub open spec fn source_kind_spec(is_dir: bool, platform: Platform, source: Seq<char>) -> Option<
    SourceKind,
> {
    if is_dir {
        Some(SourceKind::Directory)
    } else {
        let ext = lower_ext_of(source);
        match platform {
            Platform::Dos => if ext == "exe"@ {
                Some(SourceKind::DosInstaller)
            } else {
                None
            },
            Platform::Amiga => if ext == "adf"@ || ext == "hdf"@ || ext == "rp9"@ {
                Some(SourceKind::AmigaImage)
            } else {
                None
            },
        }
    }
}

pub open spec fn unsupported_hint(platform: Platform) -> Seq<char> {
    match platform {
        Platform::Dos => " or a .exe installer"@,
        Platform::Amiga => " or a .adf/.hdf/.rp9 disk image"@,
    }
}

fn eq_lit(v: &Vec<char>, lit: &str) -> (r: bool)
    ensures
        r == (v@ == lit@),
{
    let l = chars_of(lit);
    seq_eq(v.as_slice(), l.as_slice())
}

fn classify(source: &str, is_dir: bool, platform: Platform) -> (r: Result<SourceKind, InstallError>)
    ensures
        match r {
            Ok(k) => source_kind_spec(is_dir, platform, source@) == Some(k),
            Err(InstallError::UnsupportedSource { path, platform: p, hint }) => source_kind_spec(
                is_dir,
                platform,
                source@,
            ) is None && path@ == source@ && p == platform && hint@ == unsupported_hint(platform),
            Err(_) => false,
        },
{
    if is_dir {
        return Ok(SourceKind::Directory);
    }
    let ext = lower_ext_exec(source);
    match platform {
        Platform::Dos => {
            if eq_lit(&ext, "exe") {
                Ok(SourceKind::DosInstaller)
            } else {
                Err(
                    InstallError::UnsupportedSource {
                        path: owned(source),
                        platform,
                        hint: " or a .exe installer",
                    },
                )
            }
        },
        Platform::Amiga => {
            if eq_lit(&ext, "adf") || eq_lit(&ext, "hdf") || eq_lit(&ext, "rp9") {
                Ok(SourceKind::AmigaImage)
            } else {
                Err(
                    InstallError::UnsupportedSource {
                        path: owned(source),
                        platform,
                        hint: " or a .adf/.hdf/.rp9 disk image",
                    },
                )
            }
        },
    }
}

/// The name a copied Amiga image gets: the one declared name of its kind
/// when the entry declares exactly one, else the source's own name.
pub open spec fn amiga_target_name(
    ext: Seq<char>,
    floppies: Seq<Seq<char>>,
    hard_drives: Seq<Seq<char>>,
    source: Seq<char>,
) -> Seq<char> {
    if ext == "adf"@ && floppies.len() == 1 {
        floppies[0]
    } else if ext == "hdf"@ && hard_drives.len() == 1 {
        hard_drives[0]
    } else {
        match file_name_spec(source) {
            Some(n) => n,
            None => Seq::empty(),
        }
    }
}

pub open spec fn amiga_action_spec(
    floppies: Seq<Seq<char>>,
    hard_drives: Seq<Seq<char>>,
    source: Seq<char>,
    target_dir: Seq<char>,
) -> ActionView {
    let ext = lower_ext_of(source);
    if ext == "rp9"@ {
        ActionView::UnzipRp9(source)
    } else {
        ActionView::Commands(
            seq![
                mkdir_p_spec(target_dir),
                seq![
                    "cp"@,
                    "--"@,
                    source,
                    join_spec(target_dir, amiga_target_name(ext, floppies, hard_drives, source)),
                ],
            ],
        )
    }
}

fn amiga_action(spec: &EntrySpec, source: &str, target_dir: &String) -> (r: CopyAction)
    ensures
        r.view() == amiga_action_spec(
            string_views(spec.floppies@),
            string_views(spec.hard_drives@),
            source@,
            target_dir@,
        ),
{
    let ext = lower_ext_exec(source);
    if eq_lit(&ext, "rp9") {
        return CopyAction::UnzipRp9 { archive: owned(source) };
    }
    let target_name: String = if eq_lit(&ext, "adf") && spec.floppies.len() == 1 {
        spec.floppies[0].clone()
    } else if eq_lit(&ext, "hdf") && spec.hard_drives.len() == 1 {
        spec.hard_drives[0].clone()
    } else {
        match file_name(source) {
            Some(n) => n,
            None => String::new(),
        }
    };
    assert(target_name@ == amiga_target_name(
        ext@,
        string_views(spec.floppies@),
        string_views(spec.hard_drives@),
        source@,
    ));
    let copy = vec![owned("cp"), owned("--"), owned(source), join(target_dir.as_str(), target_name.as_str())];
    let cmds = vec![mkdir_p(target_dir), copy];
    assert(string_views(copy@) =~= seq![
        "cp"@,
        "--"@,
        source@,
        join_spec(target_dir@, target_name@),
    ]);
    assert(command_views(cmds@) =~= seq![mkdir_p_spec(target_dir@), string_views(copy@)]);
    CopyAction::Commands(cmds)
}

/// The commands that stage a source of kind `kind`.
pub open spec fn action_spec(
    kind: SourceKind,
    floppies: Seq<Seq<char>>,
    hard_drives: Seq<Seq<char>>,
    source: Seq<char>,
    staging: Seq<char>,
) -> ActionView {
    match kind {
        SourceKind::Directory => ActionView::Commands(
            seq![
                mkdir_p_spec(staging),
                seq!["cp"@, "-r"@, "--"@, source + "/."@, staging],
            ],
        ),
        SourceKind::DosInstaller => ActionView::Commands(
            seq![
                mkdir_p_spec(staging),
                seq!["innoextract"@, "--exclude-temp"@, "--silent"@, "--output-dir"@, staging, source],
            ],
        ),
        SourceKind::AmigaImage => amiga_action_spec(floppies, hard_drives, source, staging),
    }
}

/// What the caller found before planning: whether the source exists and is
/// a directory, and whether the destination directory
/// ([`InstallLocations::dest_dir`]) exists and is not empty.
pub struct SourceFacts {
    pub source_exists: bool,
    pub source_is_dir: bool,
    pub dest_occupied: bool,
}

/// Plan the install of `spec` from `source` into `dest_base`: check the
/// source, classify it, refuse an occupied destination, and choose how to
/// stage it.
pub fn plan_install(spec: &EntrySpec, source: &str, dest_base: &str, facts: &SourceFacts) -> (r:
    Result<InstallPlan, InstallError>)
    ensures
        match r {
            Ok(plan) => {
                &&& facts.source_exists
                &&& !facts.dest_occupied
                &&& source_kind_spec(facts.source_is_dir, spec.platform, source@) == Some(plan.kind)
                &&& plan.dest_dir@ == join_spec(dest_base@, spec.id@)
                &&& plan.staging_dir@ == join_spec(dest_base@, staging_name(spec.id@))
                &&& plan.install_path@ == join_subdir_spec(
                    join_spec(dest_base@, spec.id@),
                    opt_str(spec.subdir),
                )
                &&& plan.staged_install_path@ == join_subdir_spec(
                    join_spec(dest_base@, staging_name(spec.id@)),
                    opt_str(spec.subdir),
                )
                &&& plan.action.view() == action_spec(
                    plan.kind,
                    string_views(spec.floppies@),
                    string_views(spec.hard_drives@),
                    source@,
                    join_spec(dest_base@, staging_name(spec.id@)),
                )
            },
            Err(InstallError::SourceMissing { path }) => !facts.source_exists && path@ == source@,
            Err(InstallError::UnsupportedSource { path, platform, hint }) => {
                &&& facts.source_exists
                &&& source_kind_spec(facts.source_is_dir, spec.platform, source@) is None
                &&& path@ == source@
                &&& platform == spec.platform
                &&& hint@ == unsupported_hint(spec.platform)
            },
            Err(InstallError::DestinationOccupied { path }) => {
                &&& facts.source_exists
                &&& source_kind_spec(facts.source_is_dir, spec.platform, source@) is Some
                &&& facts.dest_occupied
                &&& path@ == join_spec(dest_base@, spec.id@)
            },
            Err(_) => false,
        },
{
    if !facts.source_exists {
        return Err(InstallError::SourceMissing { path: owned(source) });
    }
    let kind = match classify(source, facts.source_is_dir, spec.platform) {
        Ok(k) => k,
        Err(e) => {
            return Err(e);
        },
    };
    let sub: Option<&str> = match &spec.subdir {
        Some(x) => Some(x.as_str()),
        None => None,
    };
    assert(opt_ref(sub) == opt_str(spec.subdir));
    let loc = locations(spec.id.as_str(), sub, dest_base);
    if facts.dest_occupied {
        return Err(InstallError::DestinationOccupied { path: loc.dest_dir });
    }
    let action = match kind {
        SourceKind::Directory => {
            let mut from = owned(source);
            push_str(&mut from, "/.");
            let copy = vec![owned("cp"), owned("-r"), owned("--"), from, loc.staging_dir.clone()];
            let cmds = vec![mkdir_p(&loc.staging_dir), copy];
            assert(string_views(copy@) =~= seq!["cp"@, "-r"@, "--"@, source@ + "/."@, loc.staging_dir@]);
            assert(command_views(cmds@) =~= seq![mkdir_p_spec(loc.staging_dir@), string_views(copy@)]);
            CopyAction::Commands(cmds)
        },
        SourceKind::DosInstaller => {
            let unpack = vec![
                owned("innoextract"),
                owned("--exclude-temp"),
                owned("--silent"),
                owned("--output-dir"),
                loc.staging_dir.clone(),
                owned(source),
            ];
            let cmds = vec![mkdir_p(&loc.staging_dir), unpack];
            assert(string_views(unpack@) =~= seq![
                "innoextract"@,
                "--exclude-temp"@,
                "--silent"@,
                "--output-dir"@,
                loc.staging_dir@,
                source@,
            ]);
            assert(command_views(cmds@) =~= seq![mkdir_p_spec(loc.staging_dir@), string_views(unpack@)]);
            CopyAction::Commands(cmds)
        },
        SourceKind::AmigaImage => amiga_action(spec, source, &loc.staging_dir),
    };
    Ok(
        InstallPlan {
            kind,
            dest_dir: loc.dest_dir,
            staging_dir: loc.staging_dir,
            install_path: loc.install_path,
            staged_install_path: loc.staged_install_path,
            action,
        },
    )
}

/// The verdict on a staging run, from what the command runner reported:
/// its exit code, or why it could not start.
pub fn stage(outcome: Result<i32, String>) -> (r: Result<(), InstallError>)
    ensures
        match outcome {
            Ok(code) => if code == 0 {
                r is Ok
            } else {
                r matches Err(InstallError::CommandFailed { code: c }) && c == code
            },
            Err(m) => r matches Err(InstallError::CommandSpawn { message }) && message@ == m@,
        },
{
    match outcome {
        Ok(0) => Ok(()),
        Ok(code) => Err(InstallError::CommandFailed { code }),
        Err(message) => Err(InstallError::CommandSpawn { message }),
    }
}

/// May the staged copy replace the destination? Only when the staged
/// install path is a directory (the source held the entry's subdirectory)
/// and the destination is absent or empty.
pub fn commit(
    staged_install_path: &str,
    staged_is_dir: bool,
    dest_dir: &str,
    dest_occupied: bool,
) -> (r: Result<(), InstallError>)
    ensures
        match r {
            Ok(()) => staged_is_dir && !dest_occupied,
            Err(InstallError::IncompleteStaging { path }) => !staged_is_dir && path@
                == staged_install_path@,
            Err(InstallError::DestinationOccupied { path }) => staged_is_dir && dest_occupied
                && path@ == dest_dir@,
            Err(_) => false,
        },
{
    if !staged_is_dir {
        return Err(InstallError::IncompleteStaging { path: owned(staged_install_path) });
    }
    if dest_occupied {
        return Err(InstallError::DestinationOccupied { path: owned(dest_dir) });
    }
    Ok(())
}

pub open spec fn dest_dir_spec(install_path: Seq<char>, subdir: Option<Seq<char>>) -> Seq<char> {
    match subdir {
        Some(s) => if path_ends_with(install_path, s) {
            match parent_spec(install_path) {
                Some(p) => p,
                None => install_path,
            }
        } else {
            install_path
        },
        None => install_path,
    }
}

/// The game's own directory, from a recorded install path: the path's
/// parent when it ends with the entry's subdirectory, else the path itself.
pub fn dest_dir_from_install_path(install_path: &str, subdir: Option<&str>) -> (r: String)
    ensures
        r@ == dest_dir_spec(
            install_path@,
            match subdir {
                Some(s) => Some(s@),
                None => None,
            },
        ),
{
    match subdir {
        Some(s) => {
            if ends_with_path(install_path, s) {
                match parent(install_path) {
                    Some(p) => p,
                    None => owned(install_path),
                }
            } else {
                owned(install_path)
            }
        },
        None => owned(install_path),
    }
}

/// A subdirectory that is one plain path component: not empty, no `/`,
/// and not `.`.
pub open spec fn single_component(s: Seq<char>) -> bool {
    s.len() > 0 && !s.contains('/') && s != seq!['.']
}

/// An install path mapped back gives the game's directory: for a valid
/// catalog id and a subdirectory that is absent or a single path
/// component, [`dest_dir_from_install_path`] recovers from the install
/// path that [`locations`] gives the destination directory it gives.
pub proof fn lemma_install_path_round_trip(id: Seq<char>, subdir: Option<Seq<char>>, base: Seq<char>)
    requires
        valid_id(id),
        subdir matches Some(s) ==> single_component(s),
    ensures
        dest_dir_spec(join_subdir_spec(join_spec(base, id), subdir), subdir) == join_spec(base, id),
{
    let d = join_spec(base, id);
    assert(id[0] != '/');
    let x: Seq<char> = if base.len() == 0 {
        Seq::empty()
    } else if base.last() == '/' {
        base
    } else {
        base + seq!['/']
    };
    assert(d =~= x + id);
    assert(d.len() >= 2);
    assert(d.last() == id.last());
    assert(d.last() != '/' && d.last() != '.');
    match subdir {
        None => {},
        Some(s) => {
            assert(s[0] != '/') by {
                assert(s.contains(s[0]));
            }
            let p = join_spec(d, s);
            assert(p =~= d + seq!['/'] + s);
            // The install path ends with the subdirectory.
            lemma_split_from_whole(s, '/', Seq::empty());
            assert(Seq::<char>::empty() + s =~= s);
            let cs = components(s);
            assert(normal_pieces(seq![s]) =~= seq![s]) by {
                assert(seq![s].drop_last() =~= Seq::<Seq<char>>::empty());
                assert(normal_pieces(Seq::<Seq<char>>::empty()) == Seq::<Seq<char>>::empty());
                assert(seq![s].last() == s);
            }
            assert(cs =~= seq![s]);
            lemma_split_from_sep(d, s, '/', Seq::empty());
            let pieces = split_from(d, '/', Seq::empty());
            assert(split_on(p, '/') == pieces + seq![s]);
            assert((pieces + seq![s]).drop_last() =~= pieces);
            assert(normal_pieces(pieces + seq![s]) == normal_pieces(pieces).push(s));
            let cp = components(p);
            assert(p[0] == d[0]);
            assert(cp.len() >= 1);
            assert(cp.skip(cp.len() - 1) =~= seq![s]);
            assert(path_ends_with(p, s));
            // Its parent is the destination directory.
            assert(s.last() != '/') by {
                assert(s.contains(s.last()));
            }
            assert(p.last() == s.last());
            assert(trim_tail(p) == p) by {
                if s.len() == 1 && s[0] == '.' {
                    assert(s =~= seq!['.']);
                }
                if s.len() >= 2 {
                    assert(p[p.len() - 2] == s[s.len() - 2]);
                    assert(s.contains(s[s.len() - 2]));
                }
            }
            lemma_last_index_of(p, '/');
            let k = last_index_of(p, '/');
            assert(p[d.len() as int] == '/');
            assert(k >= d.len());
            assert(k == d.len()) by {
                if k > d.len() {
                    assert(p[k] == s[k - d.len() - 1]);
                    assert(s.contains(s[k - d.len() - 1]));
                }
            }
            assert(p.take(k) =~= d);
            assert(trim_tail(d) == d);
            assert(parent_spec(p) == Some(d));
        },
    }
}

#[derive(Debug, Clone, PartialEq, Eq)]
pub struct UninstallOutcome {
    /// The install record that was removed.
    pub record_path: String,
    /// The game directory that was deleted, when files were deleted.
    pub deleted_dir: Option<String>,
}

/// What uninstalling `catalog_id` removes: its install record
/// `<installs_dir>/<catalog_id>.toml`, and the game directory `dest_dir`
/// only when `delete_files` is set. The caller removes what it names.
pub fn uninstall(catalog_id: &str, dest_dir: &str, delete_files: bool, installs_dir: &str) -> (r: UninstallOutcome)
    ensures
        r.record_path@ == join_spec(installs_dir@, catalog_id@ + ".toml"@),
        delete_files ==> (r.deleted_dir matches Some(d) && d@ == dest_dir@),
        !delete_files ==> r.deleted_dir is None,
{
    let mut name = owned(catalog_id);
    push_str(&mut name, ".toml");
    let record_path = join(installs_dir, name.as_str());
    let deleted_dir = if delete_files {
        Some(owned(dest_dir))
    } else {
        None
    };
    UninstallOutcome { record_path, deleted_dir }
}

/// An archive member's name with `\` read as `/`.
pub open spec fn slashed(name: Seq<char>) -> Seq<char> {
    Seq::new(name.len(), |i: int| if name[i] == '\\' { '/' } else { name[i] })
}

/// A plain path segment: not empty, `.` or `..`.
pub open spec fn plain_segment(s: Seq<char>) -> bool {
    s.len() > 0 && s != seq!['.'] && s != seq!['.', '.']
}

pub open spec fn plain_segment_fn() -> spec_fn(Seq<char>) -> bool {
    |s: Seq<char>| plain_segment(s)
}

/// The plain segments of an archive member's name, in order.
pub open spec fn archive_segments(name: Seq<char>) -> Seq<Seq<char>> {
    split_on(slashed(name), '/').filter(plain_segment_fn())
}

/// Where an archive member is extracted, relative to the destination: its
/// plain segments joined by `/`, so that no member escapes the destination;
/// a member with none is skipped.
pub open spec fn archive_entry_spec(name: Seq<char>) -> Option<Seq<char>> {
    let segs = archive_segments(name);
    if segs.len() == 0 {
        None
    } else {
        Some(join_sep(segs, "/"@))
    }
}

/// The relative path an `.rp9` member named `name` is extracted to, or
/// `None` when its name holds no plain segment.
pub fn archive_entry_path(name: &str) -> (r: Option<String>)
    ensures
        match r {
            Some(p) => archive_entry_spec(name@) == Some(p@),
            None => archive_entry_spec(name@) is None,
        },
{
    let cs = chars_of(name);
    let mut slashed_cs: Vec<char> = Vec::new();
    let mut i: usize = 0;
    while i < cs.len()
        invariant
            i <= cs@.len(),
            cs@ == name@,
            slashed_cs@ =~= slashed(name@).take(i as int),
        decreases cs@.len() - i,
    {
        if cs[i] == '\\' {
            slashed_cs.push('/');
        } else {
            slashed_cs.push(cs[i]);
        }
        i = i + 1;
    }
    assert(slashed_cs@ =~= slashed(name@));
    let pieces = split_exec(slashed_cs.as_slice(), '/');
    let ghost pv = views(pieces@);
    let mut kept: Vec<String> = Vec::new();
    let mut k: usize = 0;
    while k < pieces.len()
        invariant
            k <= pieces@.len(),
            pv == views(pieces@),
            pv == split_on(slashed(name@), '/'),
            string_views(kept@) == pv.take(k as int).filter(plain_segment_fn()),
        decreases pieces@.len() - k,
    {
        proof {
            lemma_filter_step(pv, k as int, plain_segment_fn());
        }
        let seg = &pieces[k];
        let dot = seg.len() == 1 && seg[0] == '.';
        let dotdot = seg.len() == 2 && seg[0] == '.' && seg[1] == '.';
        proof {
            assert(pv[k as int] == seg@);
            if seg@.len() == 1 {
                assert(dot == (seg@ =~= seq!['.']));
            }
            if seg@.len() == 2 {
                assert(dotdot == (seg@ =~= seq!['.', '.']));
            }
        }
        if seg.len() > 0 && !dot && !dotdot {
            let ghost before = kept@;
            kept.push(string_from(seg.as_slice()));
            assert(string_views(kept@) =~= string_views(before).push(seg@));
        }
        k = k + 1;
    }
    assert(pv.take(pieces@.len() as int) =~= pv);
    if kept.len() == 0 {
        None
    } else {
        Some(join_strings(&kept, "/"))
    }
}

} // verus!

verus! {

impl InstallError {
    /// The text of the error.
    pub open spec fn message_view(&self) -> Seq<char> {
        match self {
            InstallError::SourceMissing { path } => "source path "@ + path@ + " does not exist"@,
            InstallError::UnsupportedSource { path, platform, hint } => "unsupported source "@ + path@ + " for "@ + crate::catalog::platform_debug(*platform) + ": expected a directory"@ + hint@,
            InstallError::DestinationOccupied { path } => "destination "@ + path@ + " already exists and is not empty"@,
            InstallError::IncompleteStaging { path } => "staged install is incomplete: "@ + path@ + " does not exist (the source is missing the entry's required subdirectory)"@,
            InstallError::CommandFailed { code } => "install command failed with exit code "@ + crate::text::signed_decimal(*code as int),
            InstallError::CommandSpawn { message } => "install command could not run: "@ + message@,
            InstallError::Io { path, message } => "filesystem error at "@ + path@ + ": "@ + message@,
            InstallError::Rp9 { path, message } => "failed to extract rp9 "@ + path@ + ": "@ + message@,
        }
    }

    /// The message shown for the error.
    pub fn message(&self) -> (r: String)
        ensures
            r@ == self.message_view(),
    {
        match self {
            InstallError::SourceMissing { path } => {
                let mut r = crate::text::owned("source path ");
                crate::text::push_str(&mut r, path.as_str());
                crate::text::push_str(&mut r, " does not exist");
                r
            },
            InstallError::UnsupportedSource { path, platform, hint } => {
                let mut r = crate::text::owned("unsupported source ");
                crate::text::push_str(&mut r, path.as_str());
                crate::text::push_str(&mut r, " for ");
                crate::text::push_str(&mut r, crate::catalog::platform_debug_str(*platform));
                crate::text::push_str(&mut r, ": expected a directory");
                crate::text::push_str(&mut r, *hint);
                r
            },
            InstallError::DestinationOccupied { path } => {
                let mut r = crate::text::owned("destination ");
                crate::text::push_str(&mut r, path.as_str());
                crate::text::push_str(&mut r, " already exists and is not empty");
                r
            },
            InstallError::IncompleteStaging { path } => {
                let mut r = crate::text::owned("staged install is incomplete: ");
                crate::text::push_str(&mut r, path.as_str());
                crate::text::push_str(&mut r, " does not exist (the source is missing the entry's required subdirectory)");
                r
            },
            InstallError::CommandFailed { code } => {
                let mut r = crate::text::owned("install command failed with exit code ");
                crate::text::push_signed_decimal(&mut r, *code);
                r
            },
            InstallError::CommandSpawn { message } => {
                let mut r = crate::text::owned("install command could not run: ");
                crate::text::push_str(&mut r, message.as_str());
                r
            },
            InstallError::Io { path, message } => {
                let mut r = crate::text::owned("filesystem error at ");
                crate::text::push_str(&mut r, path.as_str());
                crate::text::push_str(&mut r, ": ");
                crate::text::push_str(&mut r, message.as_str());
                r
            },
            InstallError::Rp9 { path, message } => {
                let mut r = crate::text::owned("failed to extract rp9 ");
                crate::text::push_str(&mut r, path.as_str());
                crate::text::push_str(&mut r, ": ");
                crate::text::push_str(&mut r, message.as_str());
                r
            },
        }
    }
}

} // verus!

verus! {

/// A directory source is copied by its contents: the staging directory is
/// made first, then `cp -r` copies the source followed by `/.` into it, so
/// the source's files (not the source directory itself) land directly in
/// the staging directory. This holds on either platform.
pub proof fn lemma_directory_copies_contents(
    platform: Platform,
    floppies: Seq<Seq<char>>,
    hard_drives: Seq<Seq<char>>,
    source: Seq<char>,
    staging: Seq<char>,
)
    ensures
        source_kind_spec(true, platform, source) == Some(SourceKind::Directory),
        action_spec(SourceKind::Directory, floppies, hard_drives, source, staging) matches ActionView::Commands(cmds) && {
            &&& cmds.len() == 2
            &&& cmds[0].len() == 3 && cmds[0][2] == staging
            &&& cmds[1].len() == 5
            &&& cmds[1][3] == source + seq!['/', '.']
            &&& cmds[1][4] == staging
        },
{
    reveal_strlit("/.");
    assert("/."@ =~= seq!['/', '.']);
}

} // verus!
