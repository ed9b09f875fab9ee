//! Amiga entry points. Floppy-loadable games are listed by their disk
//! images; WHDLoad and hard-drive installs are left to manual entry.

use vstd::prelude::*;
use crate::heuristic::ListedEntry;
use crate::order::{name_order, sort_names};
use crate::text::{chars_of, ends_with, ends_with_exec, owned, string_views, upper_seq, upper_vec};

verus! {

#[derive(Debug, Clone, PartialEq, Eq)]
pub enum AmigaEntryPoints {
    /// Disk images in boot order (sorted by name).
    Floppies(Vec<String>),
    /// No floppy set to offer; `reason` says why.
    ManualEntry { reason: String },
}

/// The mathematical value of an [`AmigaEntryPoints`].
pub enum AmigaView {
    Floppies(Seq<Seq<char>>),
    ManualEntry(Seq<char>),
}

impl AmigaEntryPoints {
    pub open spec fn view(&self) -> AmigaView {
        match self {
            AmigaEntryPoints::Floppies(v) => AmigaView::Floppies(string_views(v@)),
            AmigaEntryPoints::ManualEntry { reason } => AmigaView::ManualEntry(reason@),
        }
    }
}

pub open spec fn has_upper_suffix(e: ListedEntry, suffix: Seq<char>) -> bool {
    e.is_file && ends_with(upper_seq(e.name@), suffix)
}

/// The names of the `.adf` files of `es`, in listing order.
pub open spec fn adf_names(es: Seq<ListedEntry>) -> Seq<Seq<char>>
    decreases es.len(),
{
    if es.len() == 0 {
        Seq::empty()
    } else if has_upper_suffix(es.last(), ".ADF"@) {
        adf_names(es.drop_last()).push(es.last().name@)
    } else {
        adf_names(es.drop_last())
    }
}

pub open spec fn any_with_suffix(es: Seq<ListedEntry>, suffix: Seq<char>) -> bool
    decreases es.len(),
{
    es.len() > 0 && (any_with_suffix(es.drop_last(), suffix) || has_upper_suffix(es.last(), suffix))
}

/// What [`detect`] gives for the listing `es`.
pub open spec fn amiga_detect_spec(es: Seq<ListedEntry>) -> AmigaView {
    if adf_names(es).len() > 0 {
        AmigaView::Floppies(adf_names(es).sort_by(name_order()))
    } else if any_with_suffix(es, ".SLAVE"@) {
        AmigaView::ManualEntry(
            "WHDLoad installation (.slave present); v0.2 wizard supports floppy-loadable games only"@,
        )
    } else if any_with_suffix(es, ".HDF"@) {
        AmigaView::ManualEntry(
            ".hdf hard-drive image present; v0.2 wizard supports floppy-loadable games only"@,
        )
    } else {
        AmigaView::ManualEntry("no .ADF files found"@)
    }
}

fn suffix_flags(e: &ListedEntry) -> (r: (bool, bool, bool))
    ensures
        r.0 == has_upper_suffix(*e, ".ADF"@),
        r.1 == has_upper_suffix(*e, ".SLAVE"@),
        r.2 == has_upper_suffix(*e, ".HDF"@),
{
    if !e.is_file {
        return (false, false, false);
    }
    let upper = upper_vec(chars_of(e.name.as_str()).as_slice());
    let adf = chars_of(".ADF");
    let slave = chars_of(".SLAVE");
    let hdf = chars_of(".HDF");
    (
        ends_with_exec(upper.as_slice(), adf.as_slice()),
        ends_with_exec(upper.as_slice(), slave.as_slice()),
        ends_with_exec(upper.as_slice(), hdf.as_slice()),
    )
}

/// Floppy images of the listed directory, sorted by name; otherwise why the
/// wizard must ask for entry points by hand.
pub fn detect(entries: &Vec<ListedEntry>) -> (r: AmigaEntryPoints)
    ensures
        r.view() == amiga_detect_spec(entries@),
{
    let mut adfs: Vec<String> = Vec::new();
    let mut whdload = false;
    let mut hdf = false;
    let mut i: usize = 0;
    while i < entries.len()
        invariant
            i <= entries@.len(),
            string_views(adfs@) == adf_names(entries@.take(i as int)),
            whdload == any_with_suffix(entries@.take(i as int), ".SLAVE"@),
            hdf == any_with_suffix(entries@.take(i as int), ".HDF"@),
        decreases entries@.len() - i,
    {
        let e = &entries[i];
        assert(entries@.take(i + 1).drop_last() =~= entries@.take(i as int));
        assert(entries@.take(i + 1).last() == *e);
        let (is_adf, is_slave, is_hdf) = suffix_flags(e);
        let ghost before = adfs@;
        if is_adf {
            adfs.push(e.name.clone());
        }
        assert(string_views(adfs@) =~= adf_names(entries@.take(i + 1)));
        whdload = whdload || is_slave;
        hdf = hdf || is_hdf;
        i = i + 1;
    }
    assert(entries@.take(entries@.len() as int) =~= entries@);
    if adfs.len() > 0 {
        let sorted = sort_names(&adfs);
        return AmigaEntryPoints::Floppies(sorted);
    }
    if whdload {
        return AmigaEntryPoints::ManualEntry {
            reason: owned(
                "WHDLoad installation (.slave present); v0.2 wizard supports floppy-loadable games only",
            ),
        };
    }
    if hdf {
        return AmigaEntryPoints::ManualEntry {
            reason: owned(
                ".hdf hard-drive image present; v0.2 wizard supports floppy-loadable games only",
            ),
        };
    }
    AmigaEntryPoints::ManualEntry { reason: owned("no .ADF files found") }
}

} // verus!
