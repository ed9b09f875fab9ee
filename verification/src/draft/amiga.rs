//! Amiga drafts: a floppy-loadable game on an A500 by default.

use vstd::prelude::*;
use crate::catalog::{
    Acquisition, AmigaModel, CatalogEntry, Emulator, FsUaeRuntime, Game, Install, Meta, Platform,
    Runtime,
};
use crate::draft::{blank_parts, DraftError};
use crate::game_install::clone_strings;
use crate::heuristic::amiga::AmigaEntryPoints;
use crate::heuristic::metadata::DraftMetadata;
use crate::text::string_views;

verus! {

/// What [`compose`] promises for an Amiga draft.
pub open spec fn compose_post(
    metadata: &DraftMetadata,
    entry_points: AmigaEntryPoints,
    r: Result<CatalogEntry, DraftError>,
) -> bool {
    match r {
        Ok(e) => {
            &&& metadata.id@.len() > 0
            &&& e.schema_version == 1
            &&& e.game.id@ == metadata.id@
            &&& e.game.title@ == metadata.title@
            &&& e.game.platform == Platform::Amiga
            &&& e.game.collection is None && e.game.collection_name is None
            &&& blank_parts(e.meta, e.acquisition, e.install)
            &&& e.runtime.emulator == Emulator::FsUae
            &&& e.runtime.sidecars@.len() == 0
            &&& e.runtime.dosbox is None
            &&& e.runtime.fs_uae matches Some(f) && f.model == AmigaModel::A500 && f.config is None
                && f.hard_drives@.len() == 0 && (entry_points matches AmigaEntryPoints::Floppies(v)
                && string_views(f.floppies@) == string_views(v@))
        },
        Err(DraftError::NoIdDerivable) => metadata.id@.len() == 0,
        Err(DraftError::NoAmigaFloppies { reason }) => metadata.id@.len() > 0 && (
        entry_points matches AmigaEntryPoints::ManualEntry { reason: why } && reason@ == why@),
        Err(_) => false,
    }
}

/// An Amiga draft: the derived id and title and the detected floppies, on
/// an A500; without floppies, the reason the detection gave.
pub fn compose(metadata: &DraftMetadata, entry_points: &AmigaEntryPoints) -> (r: Result<
    CatalogEntry,
    DraftError,
>)
    ensures
        compose_post(metadata, *entry_points, r),
{
    if metadata.id.as_str().is_empty() {
        return Err(DraftError::NoIdDerivable);
    }
    let floppies = match entry_points {
        AmigaEntryPoints::Floppies(v) => clone_strings(v),
        AmigaEntryPoints::ManualEntry { reason } => {
            return Err(DraftError::NoAmigaFloppies { reason: reason.clone() });
        },
    };
    Ok(
        CatalogEntry {
            schema_version: 1,
            game: Game {
                id: metadata.id.clone(),
                title: metadata.title.clone(),
                platform: Platform::Amiga,
                collection: None,
                collection_name: None,
            },
            meta: Meta::default(),
            acquisition: Acquisition::default(),
            install: Install::default(),
            runtime: Runtime {
                emulator: Emulator::FsUae,
                sidecars: Vec::new(),
                dosbox: None,
                fs_uae: Some(
                    FsUaeRuntime {
                        model: AmigaModel::A500,
                        config: None,
                        floppies,
                        hard_drives: Vec::new(),
                    },
                ),
            },
        },
    )
}

} // verus!
