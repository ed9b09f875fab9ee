//! Inspection of a directory the user pointed the wizard at: what platform
//! it holds, its likely entry points, and a starting id and title. The
//! functions here take what was read of the directory as values.

pub mod amiga;
pub mod dos;
pub mod metadata;
pub mod platform;

use vstd::prelude::*;
use crate::catalog::Platform;
use self::amiga::{amiga_detect_spec, AmigaEntryPoints};
use self::dos::{dos_detect_spec, EntryPointCandidate, cand_views};
use self::metadata::{extract_spec_view, DraftMetadata};
use self::platform::{detect_spec_view, scores_fit_spec, PlatformDetection};
use crate::order::name_le;

verus! {

/// One top-level entry of the inspected directory: its name, whether it is
/// a regular file, its size in bytes (0 when unknown), and, for the batch
/// files the DOS ranking reads, its text when it could be read.
pub struct ListedEntry {
    pub name: String,
    pub is_file: bool,
    pub size: u64,
    pub text: Option<String>,
}

/// Is the listing in name order, as the directory reader hands it over?
pub open spec fn listing_sorted(es: Seq<ListedEntry>) -> bool {
    forall|i: int, j: int| 0 <= i < j < es.len() ==> name_le(#[trigger] es[i].name@, #[trigger] es[j].name@)
}

/// Combined report the wizard starts a draft manifest from.
pub struct HeuristicReport {
    pub platform: PlatformDetection,
    pub dos: Vec<EntryPointCandidate>,
    pub amiga: AmigaEntryPoints,
    pub metadata: DraftMetadata,
}

/// Run every heuristic on the listing `entries` of the directory `dir`.
/// `startup_sequence` says whether `S/Startup-Sequence` (or its lower-case
/// spelling) is a file there.
pub fn analyze(dir: &str, entries: &Vec<ListedEntry>, startup_sequence: bool) -> (r: HeuristicReport)
    requires
        listing_sorted(entries@),
        scores_fit_spec(entries@, startup_sequence),
    ensures
        r.platform.view() == detect_spec_view(entries@, startup_sequence),
        cand_views(r.dos@) == dos_detect_spec(dir@, entries@),
        r.amiga.view() == amiga_detect_spec(entries@),
        r.metadata.view() == extract_spec_view(dir@),
{
    HeuristicReport {
        platform: platform::detect(entries, startup_sequence),
        dos: dos::detect(dir, entries),
        amiga: amiga::detect(entries),
        metadata: metadata::extract(dir),
    }
}

/// The platform a finished detection settled on, if any.
pub fn chosen_platform(p: &PlatformDetection) -> (r: Option<Platform>)
    ensures
        r == p.platform,
{
    p.platform
}

} // verus!
