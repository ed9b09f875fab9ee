//! Draft catalog entries built from a heuristic report, for the user to
//! check before saving.

pub mod amiga;
pub mod dos;

use vstd::prelude::*;
use crate::catalog::{Acquisition, CatalogEntry, Install, Meta, Platform};
use crate::heuristic::HeuristicReport;
use crate::heuristic::amiga::AmigaEntryPoints;

verus! {

#[derive(Debug)]
pub enum DraftError {
    NoIdDerivable,
    NoDosEntryPoint,
    NoAmigaFloppies { reason: String },
    UnknownPlatform,
}

/// The descriptive blocks of a fresh draft: all empty.
pub open spec fn blank_parts(m: Meta, a: Acquisition, i: Install) -> bool {
    &&& m.year is None && m.developer is None && m.publisher is None
    &&& m.genre@.len() == 0 && m.tags@.len() == 0 && m.description is None
    &&& a.gog is None && a.steam is None && a.developer_site is None
    &&& a.archive is None && a.amiga_forever is None && a.notes is None
    &&& i.expects_files@.len() == 0 && i.subdir is None
}

/// A draft for the platform the report settled on.
pub fn from_report(report: &HeuristicReport) -> (r: Result<CatalogEntry, DraftError>)
    ensures
        match report.platform.platform {
            Some(Platform::Dos) => dos::compose_post(&report.metadata, report.dos@, r),
            Some(Platform::Amiga) => amiga::compose_post(&report.metadata, report.amiga, r),
            None => r matches Err(DraftError::UnknownPlatform),
        },
{
    match report.platform.platform {
        Some(Platform::Dos) => dos::compose(&report.metadata, &report.dos),
        Some(Platform::Amiga) => amiga::compose(&report.metadata, &report.amiga),
        None => Err(DraftError::UnknownPlatform),
    }
}

} // verus!

verus! {

impl DraftError {
    /// The text of the error.
    pub open spec fn message_view(&self) -> Seq<char> {
        match self {
            DraftError::NoIdDerivable => "could not derive an id from the directory name; please provide one"@,
            DraftError::NoDosEntryPoint => "no DOS entry point detected; please provide one"@,
            DraftError::NoAmigaFloppies { reason } => "no Amiga floppy disks detected: "@ + reason@,
            DraftError::UnknownPlatform => "platform could not be determined; please choose DOS or Amiga"@,
        }
    }

    /// The message shown for the error.
    pub fn message(&self) -> (r: String)
        ensures
            r@ == self.message_view(),
    {
        match self {
            DraftError::NoIdDerivable => {
                let mut r = crate::text::owned("could not derive an id from the directory name; please provide one");
                r
            },
            DraftError::NoDosEntryPoint => {
                let mut r = crate::text::owned("no DOS entry point detected; please provide one");
                r
            },
            DraftError::NoAmigaFloppies { reason } => {
                let mut r = crate::text::owned("no Amiga floppy disks detected: ");
                crate::text::push_str(&mut r, reason.as_str());
                r
            },
            DraftError::UnknownPlatform => {
                let mut r = crate::text::owned("platform could not be determined; please choose DOS or Amiga");
                r
            },
        }
    }
}

} // verus!
