//! Catalog entry types and their validation. A catalog entry says what a
//! game is and how to run it; it lives in a tap at
//! `catalog/<platform>/<id>.toml` and carries no user-specific paths.

use vstd::prelude::*;
use crate::text::{
    chars_of, debug_quoted, decimal, is_digit, is_digit_exec, is_lower, is_lower_exec, owned, push_debug_quoted,
    push_decimal, push_str,
};

verus! {

#[derive(Debug, Clone, PartialEq, Eq)]
pub struct CatalogEntry {
    pub schema_version: u32,
    pub game: Game,
    pub meta: Meta,
    pub acquisition: Acquisition,
    pub install: Install,
    pub runtime: Runtime,
}

#[derive(Debug, Clone, PartialEq, Eq)]
pub struct Game {
    pub id: String,
    pub title: String,
    pub platform: Platform,
    pub collection: Option<String>,
    pub collection_name: Option<String>,
}

#[derive(Debug, Clone, Copy, PartialEq, Eq, Structural)]
pub enum Platform {
    Dos,
    Amiga,
}

#[derive(Debug, Clone, PartialEq, Eq)]
pub struct Meta {
    pub year: Option<u32>,
    pub developer: Option<String>,
    pub publisher: Option<String>,
    pub genre: Vec<String>,
    pub tags: Vec<String>,
    pub description: Option<String>,
}

impl Default for Meta {
    fn default() -> (r: Self)
        ensures
            r.year is None,
            r.developer is None,
            r.publisher is None,
            r.genre@.len() == 0,
            r.tags@.len() == 0,
            r.description is None,
    {
        Meta {
            year: None,
            developer: None,
            publisher: None,
            genre: Vec::new(),
            tags: Vec::new(),
            description: None,
        }
    }
}

#[derive(Debug, Clone, PartialEq, Eq)]
pub struct Acquisition {
    pub gog: Option<String>,
    pub steam: Option<String>,
    pub developer_site: Option<String>,
    pub archive: Option<String>,
    pub amiga_forever: Option<String>,
    pub notes: Option<String>,
}

impl Default for Acquisition {
    fn default() -> (r: Self)
        ensures
            r.gog is None,
            r.steam is None,
            r.developer_site is None,
            r.archive is None,
            r.amiga_forever is None,
            r.notes is None,
    {
        Acquisition {
            gog: None,
            steam: None,
            developer_site: None,
            archive: None,
            amiga_forever: None,
            notes: None,
        }
    }
}

#[derive(Debug, Clone, PartialEq, Eq)]
pub struct Install {
    pub expects_files: Vec<String>,
    pub subdir: Option<String>,
}

impl Default for Install {
    fn default() -> (r: Self)
        ensures
            r.expects_files@.len() == 0,
            r.subdir is None,
    {
        Install { expects_files: Vec::new(), subdir: None }
    }
}

#[derive(Debug, Clone, PartialEq, Eq)]
pub struct Runtime {
    pub emulator: Emulator,
    pub sidecars: Vec<String>,
    pub dosbox: Option<DosboxRuntime>,
    pub fs_uae: Option<FsUaeRuntime>,
}

#[derive(Debug, Clone, Copy, PartialEq, Eq, Structural)]
pub enum Emulator {
    DosboxStaging,
    FsUae,
}

#[derive(Debug, Clone, PartialEq, Eq)]
pub struct DosboxRuntime {
    pub config: String,
    pub entry: String,
    pub mount: String,
}

/// The drive letter a DOS entry mounts when it names none.
pub fn default_mount() -> (r: String)
    ensures
        r@ == "c"@,
{
    owned("c")
}

#[derive(Debug, Clone, PartialEq, Eq)]
pub struct FsUaeRuntime {
    pub model: AmigaModel,
    pub config: Option<String>,
    pub floppies: Vec<String>,
    pub hard_drives: Vec<String>,
}

#[derive(Debug, Clone, Copy, PartialEq, Eq, Structural)]
pub enum AmigaModel {
    A500,
    A600,
    A1200,
    A4000,
}

/// Why a catalog entry was rejected. `Read` and `Parse` come from the
/// loader that reads and deserializes the file; the others from
/// [`validate`].
#[derive(Debug)]
pub enum CatalogError {
    Read { path: String, message: String },
    Parse { path: String, message: String },
    UnsupportedSchema { path: String, version: u32 },
    InvalidId { path: String, id: String },
    PlatformRuntimeMismatch { path: String, platform: Platform, required: &'static str },
    PlatformEmulatorMismatch { path: String, platform: Platform, required: &'static str },
}

/// How `{:?}` writes a platform.
pub open spec fn platform_debug(p: Platform) -> Seq<char> {
    match p {
        Platform::Dos => "Dos"@,
        Platform::Amiga => "Amiga"@,
    }
}

pub(crate) fn platform_debug_str(p: Platform) -> (r: &'static str)
    ensures
        r@ == platform_debug(p),
{
    match p {
        Platform::Dos => "Dos",
        Platform::Amiga => "Amiga",
    }
}

impl CatalogError {
    /// The message shown for the error.
    pub fn message(&self) -> (r: String)
        ensures
            r@ == match self {
                CatalogError::Read { path, message } => "failed to read catalog entry "@ + path@ + ": "@
                    + message@,
                CatalogError::Parse { path, message } => "failed to parse catalog entry "@ + path@ + ": "@
                    + message@,
                CatalogError::UnsupportedSchema { path, version } => "unsupported schema_version "@
                    + decimal(*version as nat) + " in "@ + path@ + " (expected 1 \u{2014} see docs/schema.md)"@,
                CatalogError::InvalidId { path, id } => "invalid game id "@ + debug_quoted(id@) + " in "@
                    + path@ + ": must match ^[a-z][a-z0-9-]*[a-z0-9]$ and be \u{2264}64 chars"@,
                CatalogError::PlatformRuntimeMismatch { path, platform, required } =>
                    "platform/runtime mismatch in "@ + path@ + ": platform="@ + platform_debug(*platform)
                    + " requires [runtime."@ + required@ + "] block"@,
                CatalogError::PlatformEmulatorMismatch { path, platform, required } =>
                    "platform/emulator mismatch in "@ + path@ + ": platform="@ + platform_debug(*platform)
                    + " requires emulator="@ + debug_quoted(required@),
            },
    {
        match self {
            CatalogError::Read { path, message } => {
                let mut r = owned("failed to read catalog entry ");
                push_str(&mut r, path.as_str());
                push_str(&mut r, ": ");
                push_str(&mut r, message.as_str());
                r
            },
            CatalogError::Parse { path, message } => {
                let mut r = owned("failed to parse catalog entry ");
                push_str(&mut r, path.as_str());
                push_str(&mut r, ": ");
                push_str(&mut r, message.as_str());
                r
            },
            CatalogError::UnsupportedSchema { path, version } => {
                let mut r = owned("unsupported schema_version ");
                push_decimal(&mut r, *version as u64);
                push_str(&mut r, " in ");
                push_str(&mut r, path.as_str());
                push_str(&mut r, " (expected 1 \u{2014} see docs/schema.md)");
                r
            },
            CatalogError::InvalidId { path, id } => {
                let mut r = owned("invalid game id ");
                push_debug_quoted(&mut r, id.as_str());
                push_str(&mut r, " in ");
                push_str(&mut r, path.as_str());
                push_str(&mut r, ": must match ^[a-z][a-z0-9-]*[a-z0-9]$ and be \u{2264}64 chars");
                r
            },
            CatalogError::PlatformRuntimeMismatch { path, platform, required } => {
                let mut r = owned("platform/runtime mismatch in ");
                push_str(&mut r, path.as_str());
                push_str(&mut r, ": platform=");
                push_str(&mut r, platform_debug_str(*platform));
                push_str(&mut r, " requires [runtime.");
                push_str(&mut r, required);
                push_str(&mut r, "] block");
                r
            },
            CatalogError::PlatformEmulatorMismatch { path, platform, required } => {
                let mut r = owned("platform/emulator mismatch in ");
                push_str(&mut r, path.as_str());
                push_str(&mut r, ": platform=");
                push_str(&mut r, platform_debug_str(*platform));
                push_str(&mut r, " requires emulator=");
                push_debug_quoted(&mut r, required);
                r
            },
        }
    }
}

pub open spec fn is_id_char(c: char) -> bool {
    is_lower(c) || is_digit(c) || c == '-'
}

/// `^[a-z][a-z0-9-]*[a-z0-9]$`, no two hyphens in a row, 2 to 64
/// characters.
pub open spec fn valid_id(s: Seq<char>) -> bool {
    &&& 2 <= s.len() <= 64
    &&& is_lower(s[0])
    &&& (is_lower(s.last()) || is_digit(s.last()))
    &&& forall|i: int| 0 <= i < s.len() ==> is_id_char(#[trigger] s[i])
    &&& forall|i: int| 0 <= i < s.len() - 1 ==> !(#[trigger] s[i] == '-' && s[i + 1] == '-')
}

/// Does `id` have the canonical form of a game or tap id?
pub fn is_valid_id(id: &str) -> (r: bool)
    ensures
        r == valid_id(id@),
{
    let s = chars_of(id);
    let n = s.len();
    if n < 2 || n > 64 {
        return false;
    }
    if !is_lower_exec(s[0]) {
        return false;
    }
    let last = s[n - 1];
    if !(is_lower_exec(last) || is_digit_exec(last)) {
        return false;
    }
    let mut prev_hyphen = false;
    let mut i: usize = 0;
    while i < n
        invariant
            s@ == id@,
            n == s@.len(),
            i <= n,
            forall|k: int| 0 <= k < i ==> is_id_char(#[trigger] s@[k]),
            forall|k: int| 0 <= k < i - 1 ==> !(#[trigger] s@[k] == '-' && s@[k + 1] == '-'),
            prev_hyphen == (i > 0 && s@[i - 1] == '-'),
        decreases n - i,
    {
        let b = s[i];
        if is_lower_exec(b) || is_digit_exec(b) {
            prev_hyphen = false;
        } else if b == '-' {
            if prev_hyphen {
                assert(s@[i - 1] == '-' && s@[(i - 1) + 1] == '-');
                return false;
            }
            prev_hyphen = true;
        } else {
            assert(!is_id_char(s@[i as int]));
            return false;
        }
        i = i + 1;
    }
    true
}

/// The structural rules a parsed catalog entry must meet.
pub open spec fn platform_runtime_ok(e: CatalogEntry) -> bool {
    match e.game.platform {
        Platform::Dos => e.runtime.dosbox is Some && e.runtime.emulator == Emulator::DosboxStaging,
        Platform::Amiga => e.runtime.fs_uae is Some && e.runtime.emulator == Emulator::FsUae,
    }
}

pub open spec fn valid_entry(e: CatalogEntry) -> bool {
    e.schema_version == 1 && valid_id(e.game.id@) && platform_runtime_ok(e)
}

/// Check a parsed entry: schema version 1, a canonical id, and the runtime
/// block and emulator its platform requires, reporting the first rule
/// broken in that order. `path` only labels the error.
pub fn validate(entry: &CatalogEntry, path: &str) -> (r: Result<(), CatalogError>)
    ensures
        match r {
            Ok(()) => valid_entry(*entry),
            Err(CatalogError::UnsupportedSchema { path: p, version }) => entry.schema_version != 1
                && version == entry.schema_version && p@ == path@,
            Err(CatalogError::InvalidId { path: p, id }) => entry.schema_version == 1 && !valid_id(
                entry.game.id@,
            ) && id@ == entry.game.id@ && p@ == path@,
            Err(CatalogError::PlatformRuntimeMismatch { path: p, platform, required }) => {
                &&& entry.schema_version == 1
                &&& valid_id(entry.game.id@)
                &&& platform == entry.game.platform
                &&& p@ == path@
                &&& match platform {
                    Platform::Dos => entry.runtime.dosbox is None && required@ == "dosbox"@,
                    Platform::Amiga => entry.runtime.fs_uae is None && required@ == "fs_uae"@,
                }
            },
            Err(CatalogError::PlatformEmulatorMismatch { path: p, platform, required }) => {
                &&& entry.schema_version == 1
                &&& valid_id(entry.game.id@)
                &&& platform == entry.game.platform
                &&& p@ == path@
                &&& match platform {
                    Platform::Dos => entry.runtime.dosbox is Some && entry.runtime.emulator
                        != Emulator::DosboxStaging && required@ == "dosbox-staging"@,
                    Platform::Amiga => entry.runtime.fs_uae is Some && entry.runtime.emulator
                        != Emulator::FsUae && required@ == "fs-uae"@,
                }
            },
            Err(_) => false,
        },
{
    if entry.schema_version != 1 {
        return Err(CatalogError::UnsupportedSchema { path: owned(path), version: entry.schema_version });
    }
    if !is_valid_id(entry.game.id.as_str()) {
        return Err(CatalogError::InvalidId { path: owned(path), id: entry.game.id.clone() });
    }
    match entry.game.platform {
        Platform::Dos => {
            if entry.runtime.dosbox.is_none() {
                return Err(
                    CatalogError::PlatformRuntimeMismatch {
                        path: owned(path),
                        platform: Platform::Dos,
                        required: "dosbox",
                    },
                );
            }
            if entry.runtime.emulator != Emulator::DosboxStaging {
                return Err(
                    CatalogError::PlatformEmulatorMismatch {
                        path: owned(path),
                        platform: Platform::Dos,
                        required: "dosbox-staging",
                    },
                );
            }
        },
        Platform::Amiga => {
            if entry.runtime.fs_uae.is_none() {
                return Err(
                    CatalogError::PlatformRuntimeMismatch {
                        path: owned(path),
                        platform: Platform::Amiga,
                        required: "fs_uae",
                    },
                );
            }
            if entry.runtime.emulator != Emulator::FsUae {
                return Err(
                    CatalogError::PlatformEmulatorMismatch {
                        path: owned(path),
                        platform: Platform::Amiga,
                        required: "fs-uae",
                    },
                );
            }
        },
    }
    Ok(())
}

} // verus!
