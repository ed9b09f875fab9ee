//! The combined catalog: every entry of every loaded tap, joined with the
//! install record for it (matched by tap and game id), ordered by tap
//! priority (lower wins), then tap id, then game id. Install records that
//! match no entry are kept as orphans; companion content is grouped by tap
//! in the same priority order.

use vstd::prelude::*;
use crate::catalog::{CatalogEntry, Platform};
use crate::companion::CompanionItem;
use crate::install_record::{copy_loaded, copy_record, InstallRecord, LoadedInstallRecord};
use vstd::relations::sorted_by;
use crate::order::{key_order, key_views, sort_keyed, Key, SortKey};
use crate::paths::components;
use crate::tap::{LoadedEntry, LoadedTap};
use crate::text::{string_views, views};

verus! {

#[derive(Debug, Clone, PartialEq, Eq)]
pub struct CatalogViewEntry {
    pub tap_id: String,
    pub source_path: String,
    pub catalog: CatalogEntry,
    pub install: Option<InstallRecord>,
    /// The priority of the entry's tap (lower wins).
    pub priority: i32,
}

#[derive(Debug, Clone)]
pub struct CatalogView {
    entries: Vec<CatalogViewEntry>,
    orphans: Vec<LoadedInstallRecord>,
    companion: Vec<CompanionItem>,
}

/// The priority configured for tap `id`: the first pair naming it, or the
/// largest `i32` when none does.
pub open spec fn prio_of(prios: Seq<(String, i32)>, id: Seq<char>) -> i32
    decreases prios.len(),
{
    if prios.len() == 0 {
        i32::MAX
    } else if prios[0].0@ == id {
        prios[0].1
    } else {
        prio_of(prios.drop_first(), id)
    }
}

/// One catalog row: the tap's id, the loaded entry, the tap's priority.
pub type Row = (String, LoadedEntry, i32);

pub open spec fn tap_rows(t: LoadedTap, prio: i32) -> Seq<Row> {
    Seq::new(t.entries@.len(), |i: int| (t.metadata.id, t.entries@[i], prio))
}

/// Every entry of every tap, tap after tap.
pub open spec fn rows_of(taps: Seq<LoadedTap>, prios: Seq<(String, i32)>) -> Seq<Row>
    decreases taps.len(),
{
    if taps.len() == 0 {
        Seq::empty()
    } else {
        rows_of(taps.drop_last(), prios) + tap_rows(taps.last(), prio_of(prios, taps.last().metadata.id@))
    }
}

pub open spec fn row_key(r: Row) -> (Seq<char>, Seq<char>) {
    (r.0@, r.1.entry.game.id@)
}

pub open spec fn rec_key(l: LoadedInstallRecord) -> (Seq<char>, Seq<char>) {
    (l.record.install.tap@, l.record.install.catalog_id@)
}

/// The last record with key `key` (a later record replaces an earlier one).
pub open spec fn last_with_key(installs: Seq<LoadedInstallRecord>, key: (Seq<char>, Seq<char>)) -> Option<int>
    decreases installs.len(),
{
    if installs.len() == 0 {
        None
    } else if rec_key(installs.last()) == key {
        Some(installs.len() - 1)
    } else {
        last_with_key(installs.drop_last(), key)
    }
}

/// Did an earlier row already claim the key of row `i`?
pub open spec fn claimed_before(rows: Seq<Row>, i: int) -> bool {
    exists|j: int| 0 <= j < i && #[trigger] row_key(rows[j]) == row_key(rows[i])
}

/// The install record joined to row `i`: the record for its key, unless an
/// earlier row took it.
pub open spec fn install_of(rows: Seq<Row>, i: int, installs: Seq<LoadedInstallRecord>) -> Option<InstallRecord> {
    if claimed_before(rows, i) {
        None
    } else {
        match last_with_key(installs, row_key(rows[i])) {
            Some(r) => Some(installs[r].record),
            None => None,
        }
    }
}

pub open spec fn view_entry(rows: Seq<Row>, i: int, installs: Seq<LoadedInstallRecord>) -> CatalogViewEntry {
    CatalogViewEntry {
        tap_id: rows[i].0,
        source_path: rows[i].1.source_path,
        catalog: rows[i].1.entry,
        install: install_of(rows, i, installs),
        priority: rows[i].2,
    }
}

/// Rows are ordered by priority, tap id, game id, then listing order.
pub open spec fn row_keys(rows: Seq<Row>) -> Seq<Key> {
    Seq::new(rows.len(), |i: int| (rows[i].2, seq![rows[i].0@, rows[i].1.entry.game.id@], i))
}

/// The entries of the view.
pub open spec fn entries_spec(rows: Seq<Row>, installs: Seq<LoadedInstallRecord>) -> Seq<CatalogViewEntry> {
    let sorted = row_keys(rows).sort_by(key_order());
    Seq::new(sorted.len(), |q: int| view_entry(rows, sorted[q].2, installs))
}

/// Is record `r` an orphan: the last record with its key, and the key of
/// no row?
pub open spec fn is_orphan(rows: Seq<Row>, installs: Seq<LoadedInstallRecord>, r: int) -> bool {
    &&& last_with_key(installs, rec_key(installs[r])) == Some(r)
    &&& !exists|i: int| 0 <= i < rows.len() && #[trigger] row_key(rows[i]) == rec_key(installs[r])
}

pub open spec fn orphan_indices(rows: Seq<Row>, installs: Seq<LoadedInstallRecord>, m: int) -> Seq<int>
    decreases m,
{
    if m <= 0 {
        Seq::empty()
    } else if is_orphan(rows, installs, m - 1) {
        orphan_indices(rows, installs, m - 1).push(m - 1)
    } else {
        orphan_indices(rows, installs, m - 1)
    }
}

/// Orphans are ordered by the components of their record's path.
pub open spec fn orphan_keys(idx: Seq<int>, installs: Seq<LoadedInstallRecord>) -> Seq<Key> {
    Seq::new(idx.len(), |k: int| (0i32, components(installs[idx[k]].source_path@), idx[k]))
}

pub open spec fn orphans_spec(rows: Seq<Row>, installs: Seq<LoadedInstallRecord>) -> Seq<LoadedInstallRecord> {
    let sorted = orphan_keys(orphan_indices(rows, installs, installs.len() as int), installs).sort_by(key_order());
    Seq::new(sorted.len(), |q: int| installs[sorted[q].2])
}

/// The companion groups: taps with companion items, keyed by priority,
/// tap id, and listing order.
pub open spec fn group_indices(companion: Seq<Vec<CompanionItem>>, k: int) -> Seq<int>
    decreases k,
{
    if k <= 0 {
        Seq::empty()
    } else if companion[k - 1]@.len() > 0 {
        group_indices(companion, k - 1).push(k - 1)
    } else {
        group_indices(companion, k - 1)
    }
}

pub open spec fn group_keys(idx: Seq<int>, taps: Seq<LoadedTap>, prios: Seq<(String, i32)>) -> Seq<Key> {
    Seq::new(idx.len(), |k: int| (prio_of(prios, taps[idx[k]].metadata.id@), seq![taps[idx[k]].metadata.id@], idx[k]))
}

pub open spec fn flatten(groups: Seq<Seq<CompanionItem>>) -> Seq<CompanionItem>
    decreases groups.len(),
{
    if groups.len() == 0 {
        Seq::empty()
    } else {
        flatten(groups.drop_last()) + groups.last()
    }
}

pub open spec fn companion_spec(taps: Seq<LoadedTap>, companion: Seq<Vec<CompanionItem>>, prios: Seq<(String, i32)>) -> Seq<CompanionItem> {
    let sorted = group_keys(group_indices(companion, taps.len() as int), taps, prios).sort_by(key_order());
    flatten(Seq::new(sorted.len(), |q: int| companion[sorted[q].2]@))
}

impl CatalogView {
    pub closed spec fn entries_view(&self) -> Seq<CatalogViewEntry> {
        self.entries@
    }

    pub closed spec fn orphans_view(&self) -> Seq<LoadedInstallRecord> {
        self.orphans@
    }

    pub closed spec fn companion_view(&self) -> Seq<CompanionItem> {
        self.companion@
    }
}

fn priority_for(prios: &Vec<(String, i32)>, id: &String) -> (r: i32)
    ensures
        r == prio_of(prios@, id@),
{
    let mut i: usize = 0;
    assert(prios@.skip(0) =~= prios@);
    while i < prios.len()
        invariant
            i <= prios@.len(),
            prio_of(prios@, id@) == prio_of(prios@.skip(i as int), id@),
        decreases prios@.len() - i,
    {
        assert(prios@.skip(i as int)[0] == prios@[i as int]);
        if prios[i].0 == *id {
            return prios[i].1;
        }
        assert(prios@.skip(i as int).drop_first() =~= prios@.skip(i + 1));
        i = i + 1;
    }
    i32::MAX
}

/// Flatten the taps into rows, and key the non-empty companion groups.
fn collect_rows(taps: Vec<LoadedTap>, companion: Vec<Vec<CompanionItem>>, prios: &Vec<(String, i32)>) -> (r: (
    Vec<Row>,
    Vec<(SortKey, Vec<CompanionItem>)>,
))
    requires
        companion@.len() == taps@.len(),
    ensures
        r.0@ == rows_of(taps@, prios@),
        key_views(r.1@) == group_keys(group_indices(companion@, taps@.len() as int), taps@, prios@),
        forall|q: int| 0 <= q < r.1@.len() ==> (#[trigger] r.1@[q]).1 == companion@[r.1@[q].0.view().2],
{
    let ghost ot = taps@;
    let ghost oc = companion@;
    let mut taps = taps;
    let mut companion = companion;
    let mut rows: Vec<Row> = Vec::new();
    let mut groups: Vec<(SortKey, Vec<CompanionItem>)> = Vec::new();
    let n = taps.len();
    let mut t: usize = 0;
    while taps.len() > 0
        invariant
            n == ot.len(),
            t + taps@.len() == ot.len(),
            oc.len() == ot.len(),
            taps@ == ot.skip(t as int),
            companion@ == oc.skip(t as int),
            rows@ == rows_of(ot.take(t as int), prios@),
            key_views(groups@) == group_keys(group_indices(oc, t as int), ot, prios@),
            forall|q: int| 0 <= q < groups@.len() ==> (#[trigger] groups@[q]).1 == oc[groups@[q].0.view().2],
        decreases taps@.len(),
    {
        let tap = taps.remove(0);
        let items = companion.remove(0);
        assert(tap == ot[t as int]);
        assert(items == oc[t as int]);
        assert(taps@ =~= ot.skip(t + 1));
        assert(companion@ =~= oc.skip(t + 1));
        assert(ot.take(t + 1).drop_last() =~= ot.take(t as int));
        let prio = priority_for(prios, &tap.metadata.id);
        if items.len() > 0 {
            let mut names: Vec<String> = Vec::new();
            names.push(tap.metadata.id.clone());
            let key = SortKey { rank: prio, names, index: t };
            assert(string_views(key.names@) =~= seq![ot[t as int].metadata.id@]);
            let ghost before = groups@;
            groups.push((key, items));
            assert(key_views(groups@) =~= key_views(before).push(key.view()));
            assert(key_views(groups@) =~= group_keys(group_indices(oc, t + 1), ot, prios@));
        } else {
            assert(group_indices(oc, t + 1) == group_indices(oc, t as int));
        }
        let ghost base = rows@;
        let ghost trows = tap_rows(ot[t as int], prio);
        let tap_id = tap.metadata.id;
        let mut entries = tap.entries;
        let total = entries.len();
        let mut e: usize = 0;
        while entries.len() > 0
            invariant
                total == ot[t as int].entries@.len(),
                e + entries@.len() == ot[t as int].entries@.len(),
                entries@ == ot[t as int].entries@.skip(e as int),
                tap_id == ot[t as int].metadata.id,
                trows == tap_rows(ot[t as int], prio),
                rows@ == base + trows.take(e as int),
            decreases entries@.len(),
        {
            let le = entries.remove(0);
            assert(le == ot[t as int].entries@[e as int]);
            assert(entries@ =~= ot[t as int].entries@.skip(e + 1));
            rows.push((tap_id.clone(), le, prio));
            assert(rows@ =~= base + trows.take(e + 1));
            e = total - entries.len();
        }
        assert(trows.take(e as int) =~= trows);
        t = n - taps.len();
    }
    assert(ot.take(ot.len() as int) =~= ot);
    (rows, groups)
}

fn last_with_key_exec(installs: &Vec<LoadedInstallRecord>, tap: &String, id: &String) -> (r: Option<usize>)
    ensures
        match r {
            Some(k) => k < installs@.len() && last_with_key(installs@, (tap@, id@)) == Some(k as int),
            None => last_with_key(installs@, (tap@, id@)) is None,
        },
{
    let mut i: usize = installs.len();
    assert(installs@.take(i as int) =~= installs@);
    while i > 0
        invariant
            i <= installs@.len(),
            last_with_key(installs@, (tap@, id@)) == last_with_key(installs@.take(i as int), (tap@, id@)),
        decreases i,
    {
        let rec = &installs[i - 1];
        if rec.record.install.tap == *tap && rec.record.install.catalog_id == *id {
            return Some(i - 1);
        }
        assert(installs@.take(i as int).drop_last() =~= installs@.take(i - 1));
        i = i - 1;
    }
    None
}

/// Join each row with its install record and key it for sorting.
fn assign_installs(rows: Vec<Row>, installs: &Vec<LoadedInstallRecord>) -> (r: Vec<(SortKey, CatalogViewEntry)>)
    ensures
        r@.len() == rows@.len(),
        forall|q: int| 0 <= q < r@.len() ==> (#[trigger] r@[q]).0.view() == row_keys(rows@)[q]
            && r@[q].1 == view_entry(rows@, q, installs@),
{
    let ghost orig = rows@;
    let n = rows.len();
    let mut rows = rows;
    let mut out: Vec<(SortKey, CatalogViewEntry)> = Vec::new();
    let mut i: usize = 0;
    while rows.len() > 0
        invariant
            n == orig.len(),
            i + rows@.len() == orig.len(),
            rows@ == orig.skip(i as int),
            out@.len() == i,
            forall|q: int| 0 <= q < i ==> (#[trigger] out@[q]).0.view() == row_keys(orig)[q]
                && out@[q].1 == view_entry(orig, q, installs@),
        decreases rows@.len(),
    {
        let row = rows.remove(0);
        assert(row == orig[i as int]);
        assert(rows@ =~= orig.skip(i + 1));
        let mut claimed = false;
        let mut j: usize = 0;
        while j < out.len()
            invariant
                j <= out@.len(),
                out@.len() == i,
                i < orig.len(),
                row == orig[i as int],
                forall|q: int| 0 <= q < i ==> (#[trigger] out@[q]).0.view() == row_keys(orig)[q]
                    && out@[q].1 == view_entry(orig, q, installs@),
                claimed == exists|q: int| 0 <= q < j && #[trigger] row_key(orig[q]) == row_key(orig[i as int]),
            decreases out@.len() - j,
        {
            let prev = &out[j].1;
            assert(prev.tap_id == orig[j as int].0 && prev.catalog == orig[j as int].1.entry);
            if prev.tap_id == row.0 && prev.catalog.game.id == row.1.entry.game.id {
                claimed = true;
            }
            j = j + 1;
        }
        let install = if claimed {
            None
        } else {
            match last_with_key_exec(installs, &row.0, &row.1.entry.game.id) {
                Some(k) => Some(copy_record(&installs[k].record)),
                None => None,
            }
        };
        let mut names: Vec<String> = Vec::new();
        names.push(row.0.clone());
        names.push(row.1.entry.game.id.clone());
        let key = SortKey { rank: row.2, names, index: i };
        assert(string_views(key.names@) =~= seq![orig[i as int].0@, orig[i as int].1.entry.game.id@]);
        let entry = CatalogViewEntry {
            tap_id: row.0,
            source_path: row.1.source_path,
            catalog: row.1.entry,
            install,
            priority: row.2,
        };
        out.push((key, entry));
        i = n - rows.len();
    }
    out
}

fn names_of_path(p: &String) -> (r: Vec<String>)
    ensures
        string_views(r@) == components(p@),
{
    let cs = crate::paths::components_exec(p.as_str());
    let mut r: Vec<String> = Vec::new();
    let mut k: usize = 0;
    while k < cs.len()
        invariant
            k <= cs@.len(),
            views(cs@) == components(p@),
            string_views(r@) == views(cs@).take(k as int),
        decreases cs@.len() - k,
    {
        let ghost before = r@;
        let piece = crate::text::string_from(cs[k].as_slice());
        r.push(piece);
        assert(views(cs@)[k as int] == cs@[k as int]@);
        assert(string_views(r@) =~= string_views(before).push(piece@));
        assert(string_views(r@) =~= views(cs@).take(k + 1));
        k = k + 1;
    }
    assert(views(cs@).take(cs@.len() as int) =~= views(cs@));
    r
}

/// The install records no row claims, in path order.
fn collect_orphans(rows: &Vec<Row>, installs: &Vec<LoadedInstallRecord>) -> (r: Vec<LoadedInstallRecord>)
    ensures
        r@ == orphans_spec(rows@, installs@),
{
    let m = installs.len();
    let mut keyed: Vec<(SortKey, LoadedInstallRecord)> = Vec::new();
    let mut k: usize = 0;
    while k < m
        invariant
            m == installs@.len(),
            k <= m,
            key_views(keyed@) == orphan_keys(orphan_indices(rows@, installs@, k as int), installs@),
            forall|q: int| 0 <= q < keyed@.len() ==> (#[trigger] keyed@[q]).1 == installs@[keyed@[q].0.view().2],
        decreases m - k,
    {
        let rec = &installs[k];
        let last = last_with_key_exec(installs, &rec.record.install.tap, &rec.record.install.catalog_id);
        let mut matched = false;
        let mut i: usize = 0;
        while i < rows.len()
            invariant
                i <= rows@.len(),
                k < m,
                m == installs@.len(),
                *rec == installs@[k as int],
                matched == exists|q: int| 0 <= q < i && #[trigger] row_key(rows@[q]) == rec_key(installs@[k as int]),
            decreases rows@.len() - i,
        {
            assert(row_key(rows@[i as int]) == (rows@[i as int].0@, rows@[i as int].1.entry.game.id@));
            assert(rec_key(installs@[k as int]) == (rec.record.install.tap@, rec.record.install.catalog_id@));
            if rows[i].0 == rec.record.install.tap && rows[i].1.entry.game.id == rec.record.install.catalog_id {
                matched = true;
            }
            i = i + 1;
        }
        let orphan = match last {
            Some(l) => l == k && !matched,
            None => false,
        };
        assert(orphan == is_orphan(rows@, installs@, k as int));
        if orphan {
            let key = SortKey { rank: 0, names: names_of_path(&rec.source_path), index: k };
            let ghost before = keyed@;
            keyed.push((key, copy_loaded(rec)));
            assert(key_views(keyed@) =~= key_views(before).push(key.view()));
            assert(key_views(keyed@) =~= orphan_keys(orphan_indices(rows@, installs@, k + 1), installs@));
        }
        k = k + 1;
    }
    let ghost kv = keyed@;
    let ghost keys = key_views(kv);
    let sorted = sort_keyed(keyed);
    proof {
        crate::order::lemma_sorted_payload(kv, sorted@, |w: int| installs@[w]);
    }
    let ghost sv = sorted@;
    let out = crate::order::strip_keys(sorted);
    assert(out@ =~= orphans_spec(rows@, installs@));
    out
}

pub open spec fn group_views(v: Seq<Vec<CompanionItem>>) -> Seq<Seq<CompanionItem>> {
    v.map_values(|g: Vec<CompanionItem>| g@)
}

fn flatten_groups(groups: Vec<Vec<CompanionItem>>) -> (r: Vec<CompanionItem>)
    ensures
        r@ == flatten(group_views(groups@)),
{
    let ghost og = group_views(groups@);
    let n = groups.len();
    let mut groups = groups;
    let mut out: Vec<CompanionItem> = Vec::new();
    let mut k: usize = 0;
    while groups.len() > 0
        invariant
            n == og.len(),
            k + groups@.len() == og.len(),
            group_views(groups@) == og.skip(k as int),
            out@ == flatten(og.take(k as int)),
        decreases groups@.len(),
    {
        let ghost gv = group_views(groups@);
        let g = groups.remove(0);
        assert(g@ == og[k as int]) by {
            assert(gv[0] == og.skip(k as int)[0]);
        }
        assert(group_views(groups@) =~= og.skip(k + 1)) by {
            assert forall|q: int| 0 <= q < groups@.len() implies #[trigger] group_views(groups@)[q] == og.skip(k + 1)[q] by {
                assert(gv[q + 1] == og.skip(k as int)[q + 1]);
            }
        }
        let ghost base = out@;
        let ghost gl = g@;
        let mut g = g;
        let total = g.len();
        let mut c: usize = 0;
        assert(gl.skip(0) =~= gl);
        while g.len() > 0
            invariant
                total == gl.len(),
                c + g@.len() == total,
                out@ == base + gl.take(c as int),
                g@ == gl.skip(c as int),
            decreases g@.len(),
        {
            let item = g.remove(0);
            assert(item == gl[c as int]);
            out.push(item);
            assert(out@ =~= base + gl.take(c + 1));
            assert(g@ =~= gl.skip(c + 1));
            c = total - g.len();
        }
        assert(gl.take(total as int) =~= gl);
        assert(og.take(k + 1).drop_last() =~= og.take(k as int));
        k = n - groups.len();
    }
    assert(og.take(og.len() as int) =~= og);
    out
}

impl CatalogView {
    /// Join loaded taps with the install records: each entry of each tap,
    /// with the record for its tap and game id, in order of tap priority
    /// (`priorities` maps tap ids to priorities; a tap it does not name
    /// sorts last), then tap id, then game id. `companion[i]` holds the
    /// companion items of `taps[i]`. Records matching no entry are kept as
    /// orphans, in path order.
    pub fn assemble_with_priorities(
        taps: Vec<LoadedTap>,
        companion: Vec<Vec<CompanionItem>>,
        installs: Vec<LoadedInstallRecord>,
        priorities: &Vec<(String, i32)>,
    ) -> (r: Self)
        requires
            companion@.len() == taps@.len(),
        ensures
            r.entries_view() == entries_spec(rows_of(taps@, priorities@), installs@),
            r.orphans_view() == orphans_spec(rows_of(taps@, priorities@), installs@),
            r.companion_view() == companion_spec(taps@, companion@, priorities@),
    {
        let ghost ot = taps@;
        let ghost oc = companion@;
        let (rows, groups) = collect_rows(taps, companion, priorities);
        let ghost rv = rows@;
        let orphans = collect_orphans(&rows, &installs);
        let keyed = assign_installs(rows, &installs);
        let ghost kv = keyed@;
        assert(key_views(kv) =~= row_keys(rv));
        let sorted = sort_keyed(keyed);
        proof {
            crate::order::lemma_sorted_payload(kv, sorted@, |w: int| view_entry(rv, w, installs@));
        }
        let entries = crate::order::strip_keys(sorted);
        assert(entries@ =~= entries_spec(rv, installs@));
        let ghost gv = groups@;
        let sorted_groups = sort_keyed(groups);
        proof {
            crate::order::lemma_sorted_payload(gv, sorted_groups@, |w: int| oc[w]);
        }
        let ghost sg = sorted_groups@;
        let stripped = crate::order::strip_keys(sorted_groups);
        let companion_items = flatten_groups(stripped);
        proof {
            let keys = group_keys(group_indices(oc, ot.len() as int), ot, priorities@);
            let sorted_keys = keys.sort_by(key_order());
            assert(group_views(stripped@) =~= Seq::new(
                sorted_keys.len(),
                |q: int| oc[sorted_keys[q].2]@,
            )) by {
                assert(key_views(sg) == sorted_keys);
                assert forall|q: int| 0 <= q < stripped@.len() implies #[trigger] group_views(stripped@)[q]
                    == oc[sorted_keys[q].2]@ by {
                    assert(stripped@[q] == sg[q].1);
                    assert(key_views(sg)[q] == sg[q].0.view());
                }
            }
        }
        CatalogView { entries, orphans, companion: companion_items }
    }

    /// [`CatalogView::assemble_with_priorities`] with no priorities
    /// configured.
    pub fn assemble(taps: Vec<LoadedTap>, companion: Vec<Vec<CompanionItem>>, installs: Vec<LoadedInstallRecord>) -> (r: Self)
        requires
            companion@.len() == taps@.len(),
        ensures
            r.entries_view() == entries_spec(rows_of(taps@, Seq::empty()), installs@),
            r.orphans_view() == orphans_spec(rows_of(taps@, Seq::empty()), installs@),
            r.companion_view() == companion_spec(taps@, companion@, Seq::empty()),
    {
        let none: Vec<(String, i32)> = Vec::new();
        assert(none@ =~= Seq::<(String, i32)>::empty());
        Self::assemble_with_priorities(taps, companion, installs, &none)
    }

    /// Every entry, in view order.
    pub fn all(&self) -> (r: &Vec<CatalogViewEntry>)
        ensures
            r@ == self.entries_view(),
    {
        &self.entries
    }

    /// The first entry (in view order) with game id `game_id`: the one from
    /// the tap that wins.
    pub fn by_game_id(&self, game_id: &str) -> (r: Option<&CatalogViewEntry>)
        ensures
            match r {
                Some(e) => exists|i: int| 0 <= i < self.entries_view().len() && *e == self.entries_view()[i]
                    && e.catalog.game.id@ == game_id@
                    && forall|j: int| 0 <= j < i ==> (#[trigger] self.entries_view()[j]).catalog.game.id@ != game_id@,
                None => forall|j: int| 0 <= j < self.entries_view().len() ==> (#[trigger] self.entries_view()[j]).catalog.game.id@ != game_id@,
            },
    {
        let mut i: usize = 0;
        while i < self.entries.len()
            invariant
                i <= self.entries@.len(),
                forall|j: int| 0 <= j < i ==> (#[trigger] self.entries@[j]).catalog.game.id@ != game_id@,
            decreases self.entries@.len() - i,
        {
            if crate::text::str_eq(self.entries[i].catalog.game.id.as_str(), game_id) {
                return Some(&self.entries[i]);
            }
            i = i + 1;
        }
        None
    }

    /// [`CatalogView::by_game_id`].
    pub fn by_id(&self, id: &str) -> (r: Option<&CatalogViewEntry>)
        ensures
            match r {
                Some(e) => exists|i: int| 0 <= i < self.entries_view().len() && *e == self.entries_view()[i]
                    && e.catalog.game.id@ == id@
                    && forall|j: int| 0 <= j < i ==> (#[trigger] self.entries_view()[j]).catalog.game.id@ != id@,
                None => forall|j: int| 0 <= j < self.entries_view().len() ==> (#[trigger] self.entries_view()[j]).catalog.game.id@ != id@,
            },
    {
        self.by_game_id(id)
    }

    /// The first entry of tap `tap_id` with game id `game_id`.
    pub fn by_tap_and_id(&self, tap_id: &str, game_id: &str) -> (r: Option<&CatalogViewEntry>)
        ensures
            match r {
                Some(e) => exists|i: int| 0 <= i < self.entries_view().len() && *e == self.entries_view()[i]
                    && e.tap_id@ == tap_id@ && e.catalog.game.id@ == game_id@,
                None => forall|j: int| 0 <= j < self.entries_view().len() ==> !((#[trigger] self.entries_view()[j]).tap_id@ == tap_id@
                    && self.entries_view()[j].catalog.game.id@ == game_id@),
            },
    {
        let mut i: usize = 0;
        while i < self.entries.len()
            invariant
                i <= self.entries@.len(),
                forall|j: int| 0 <= j < i ==> !((#[trigger] self.entries@[j]).tap_id@ == tap_id@ && self.entries@[j].catalog.game.id@ == game_id@),
            decreases self.entries@.len() - i,
        {
            if crate::text::str_eq(self.entries[i].tap_id.as_str(), tap_id) && crate::text::str_eq(
                self.entries[i].catalog.game.id.as_str(),
                game_id,
            ) {
                return Some(&self.entries[i]);
            }
            i = i + 1;
        }
        None
    }

    /// The orphaned install records.
    pub fn orphans(&self) -> (r: &Vec<LoadedInstallRecord>)
        ensures
            r@ == self.orphans_view(),
    {
        &self.orphans
    }

    /// Every companion item, grouped by tap in priority order.
    pub fn all_companion(&self) -> (r: &Vec<CompanionItem>)
        ensures
            r@ == self.companion_view(),
    {
        &self.companion
    }
}

proof fn lemma_last_with_key_matches(installs: Seq<LoadedInstallRecord>, key: (Seq<char>, Seq<char>))
    ensures
        last_with_key(installs, key) matches Some(r) ==> 0 <= r < installs.len() && rec_key(installs[r]) == key,
    decreases installs.len(),
{
    if installs.len() > 0 && rec_key(installs.last()) != key {
        lemma_last_with_key_matches(installs.drop_last(), key);
    }
}

proof fn lemma_sorted_keys_are_keys(keys: Seq<Key>)
    requires
        forall|w: int| 0 <= w < keys.len() ==> (#[trigger] keys[w]).2 == w,
    ensures
        keys.sort_by(key_order()).len() == keys.len(),
        sorted_by(keys.sort_by(key_order()), key_order()),
        forall|q: int| 0 <= q < keys.sort_by(key_order()).len() ==> {
            let x = #[trigger] keys.sort_by(key_order())[q];
            0 <= x.2 < keys.len() && x == keys[x.2]
        },
{
    crate::order::lemma_key_order_total();
    keys.lemma_sort_by_ensures(key_order());
    vstd::seq_lib::to_multiset_len(keys);
    vstd::seq_lib::to_multiset_len(keys.sort_by(key_order()));
    let s = keys.sort_by(key_order());
    assert forall|q: int| 0 <= q < s.len() implies {
        let x = #[trigger] s[q];
        0 <= x.2 < keys.len() && x == keys[x.2]
    } by {
        vstd::seq_lib::to_multiset_contains(s, s[q]);
        vstd::seq_lib::to_multiset_contains(keys, s[q]);
        assert(s.contains(s[q]));
        let w = choose|w: int| 0 <= w < keys.len() && keys[w] == s[q];
    }
}

/// The priority of the user's own tap in the view: below that of every
/// subscription, so that its entries always win.
pub const USER_TAP_PRIORITY: i32 = -1;

pub open spec fn subscription_priority_spec(priority: u32) -> i32 {
    if priority <= i32::MAX {
        priority as i32
    } else {
        i32::MAX
    }
}

/// The priority a subscription with `priority` has in the view: the same
/// number, capped at `i32::MAX`, so that it never drops below the user
/// tap's.
pub fn subscription_priority(priority: u32) -> (r: i32)
    ensures
        r == subscription_priority_spec(priority),
        r as int == if priority <= i32::MAX { priority as int } else { i32::MAX as int },
        USER_TAP_PRIORITY < r,
{
    if priority <= 0x7fff_ffffu32 {
        priority as i32
    } else {
        i32::MAX
    }
}

/// The priorities the view is assembled with: each subscribed tap that
/// loaded, `(tap id, subscription priority)` in subscription order, gets
/// its subscription's priority; the user tap, when it loaded, comes last
/// with [`USER_TAP_PRIORITY`], so that it wins every conflict.
pub fn view_priorities(subscribed: &Vec<(String, u32)>, user_tap_id: Option<&str>) -> (r: Vec<(String, i32)>)
    ensures
        r@.len() == subscribed@.len() + if user_tap_id is Some { 1int } else { 0int },
        forall|i: int|
            0 <= i < subscribed@.len() ==> (#[trigger] r@[i]).0@ == subscribed@[i].0@ && r@[i].1
                == subscription_priority_spec(subscribed@[i].1),
        user_tap_id matches Some(u) ==> r@.last().0@ == u@ && r@.last().1 == USER_TAP_PRIORITY,
{
    let mut r: Vec<(String, i32)> = Vec::new();
    let mut i: usize = 0;
    while i < subscribed.len()
        invariant
            i <= subscribed@.len(),
            r@.len() == i,
            forall|j: int|
                0 <= j < i ==> (#[trigger] r@[j]).0@ == subscribed@[j].0@ && r@[j].1 == subscription_priority_spec(
                    subscribed@[j].1,
                ),
        decreases subscribed@.len() - i,
    {
        let p = subscription_priority(subscribed[i].1);
        r.push((subscribed[i].0.clone(), p));
        i = i + 1;
    }
    match user_tap_id {
        Some(u) => {
            r.push((crate::text::owned(u), USER_TAP_PRIORITY));
        },
        None => {},
    }
    r
}

/// Conflict resolution: the first entry with a game id (the one
/// [`CatalogView::by_game_id`] returns) comes from a tap whose priority is
/// no larger than that of any other tap providing the same id.
pub proof fn lemma_first_is_winner(rows: Seq<Row>, installs: Seq<LoadedInstallRecord>, game_id: Seq<char>, i: int)
    requires
        0 <= i < entries_spec(rows, installs).len(),
        entries_spec(rows, installs)[i].catalog.game.id@ == game_id,
        forall|j: int| 0 <= j < i ==> (#[trigger] entries_spec(rows, installs)[j]).catalog.game.id@ != game_id,
    ensures
        forall|j: int| 0 <= j < entries_spec(rows, installs).len()
            && (#[trigger] entries_spec(rows, installs)[j]).catalog.game.id@ == game_id
            ==> entries_spec(rows, installs)[i].priority <= entries_spec(rows, installs)[j].priority,
{
    lemma_entries_by_priority(rows, installs);
    let e = entries_spec(rows, installs);
    assert forall|j: int| 0 <= j < e.len() && (#[trigger] e[j]).catalog.game.id@ == game_id implies e[i].priority
        <= e[j].priority by {
        if j != i {
            assert(i < j);
        }
    }
}

/// The entries of the view come in priority order (lower first), so the
/// first entry with a given game id is one from the tap that wins.
pub proof fn lemma_entries_by_priority(rows: Seq<Row>, installs: Seq<LoadedInstallRecord>)
    ensures
        forall|i: int, j: int| 0 <= i < j < entries_spec(rows, installs).len() ==>
            (#[trigger] entries_spec(rows, installs)[i]).priority <= (#[trigger] entries_spec(rows, installs)[j]).priority,
{
    let keys = row_keys(rows);
    lemma_sorted_keys_are_keys(keys);
    let s = keys.sort_by(key_order());
    let e = entries_spec(rows, installs);
    assert forall|i: int, j: int| 0 <= i < j < e.len() implies (#[trigger] e[i]).priority <= (#[trigger] e[j]).priority by {
        assert(key_order()(s[i], s[j]));
        assert(e[i].priority == rows[s[i].2].2);
        assert(s[i] == keys[s[i].2]);
        assert(s[j] == keys[s[j].2]);
    }
}

/// Every row is in the view exactly once: the view lists the rows joined
/// with their records, in a new order.
pub proof fn lemma_entries_are_rows(rows: Seq<Row>, installs: Seq<LoadedInstallRecord>)
    ensures
        entries_spec(rows, installs).len() == rows.len(),
        forall|q: int| 0 <= q < rows.len() ==> exists|i: int| 0 <= i < rows.len()
            && #[trigger] entries_spec(rows, installs)[q] == view_entry(rows, i, installs),
{
    let keys = row_keys(rows);
    lemma_sorted_keys_are_keys(keys);
    let s = keys.sort_by(key_order());
    assert forall|q: int| 0 <= q < rows.len() implies exists|i: int| 0 <= i < rows.len()
        && #[trigger] entries_spec(rows, installs)[q] == view_entry(rows, i, installs) by {
        assert(entries_spec(rows, installs)[q] == view_entry(rows, s[q].2, installs));
    }
}

/// An install record is joined only to the entry of its own tap and game.
pub proof fn lemma_installs_match(rows: Seq<Row>, installs: Seq<LoadedInstallRecord>)
    ensures
        forall|q: int| 0 <= q < entries_spec(rows, installs).len() ==> (
        (#[trigger] entries_spec(rows, installs)[q]).install matches Some(rec) ==> (rec.install.tap@
            == entries_spec(rows, installs)[q].tap_id@ && rec.install.catalog_id@
            == entries_spec(rows, installs)[q].catalog.game.id@)),
{
    let keys = row_keys(rows);
    lemma_sorted_keys_are_keys(keys);
    let s = keys.sort_by(key_order());
    let e = entries_spec(rows, installs);
    assert forall|q: int| 0 <= q < e.len() implies ((#[trigger] e[q]).install matches Some(rec) ==> (rec.install.tap@
        == e[q].tap_id@ && rec.install.catalog_id@ == e[q].catalog.game.id@)) by {
        let w = s[q].2;
        assert(e[q] == view_entry(rows, w, installs));
        lemma_last_with_key_matches(installs, row_key(rows[w]));
    }
}

proof fn lemma_orphan_indices(rows: Seq<Row>, installs: Seq<LoadedInstallRecord>, m: int)
    requires
        0 <= m <= installs.len(),
    ensures
        forall|k: int| 0 <= k < orphan_indices(rows, installs, m).len() ==> {
            let r = #[trigger] orphan_indices(rows, installs, m)[k];
            0 <= r < m && is_orphan(rows, installs, r)
        },
        forall|a: int, b: int| 0 <= a < b < orphan_indices(rows, installs, m).len() ==>
            #[trigger] orphan_indices(rows, installs, m)[a] < #[trigger] orphan_indices(rows, installs, m)[b],
    decreases m,
{
    if m > 0 {
        lemma_orphan_indices(rows, installs, m - 1);
        let prev = orphan_indices(rows, installs, m - 1);
        let cur = orphan_indices(rows, installs, m);
        if is_orphan(rows, installs, m - 1) {
            assert(cur == prev.push(m - 1));
            assert forall|k: int| 0 <= k < cur.len() implies {
                let r = #[trigger] cur[k];
                0 <= r < m && is_orphan(rows, installs, r)
            } by {
                if k < prev.len() {
                    assert(cur[k] == prev[k]);
                }
            }
            assert forall|a: int, b: int| 0 <= a < b < cur.len() implies #[trigger] cur[a] < #[trigger] cur[b] by {
                assert(cur[a] == prev[a]);
                if b < prev.len() {
                    assert(cur[b] == prev[b]);
                }
            }
        } else {
            assert(cur == prev);
        }
    }
}

/// An orphan is a record whose tap and game match no entry of the view.
pub proof fn lemma_orphans_unmatched(rows: Seq<Row>, installs: Seq<LoadedInstallRecord>)
    ensures
        forall|q: int, i: int| 0 <= q < orphans_spec(rows, installs).len() && 0 <= i < rows.len()
            ==> row_key(#[trigger] rows[i]) != rec_key(#[trigger] orphans_spec(rows, installs)[q]),
{
    let idx = orphan_indices(rows, installs, installs.len() as int);
    lemma_orphan_indices(rows, installs, installs.len() as int);
    let keys = orphan_keys(idx, installs);
    crate::order::lemma_key_order_total();
    keys.lemma_sort_by_ensures(key_order());
    let s = keys.sort_by(key_order());
    assert forall|q: int, i: int| 0 <= q < orphans_spec(rows, installs).len() && 0 <= i < rows.len()
        implies row_key(#[trigger] rows[i]) != rec_key(#[trigger] orphans_spec(rows, installs)[q]) by {
        vstd::seq_lib::to_multiset_contains(s, s[q]);
        vstd::seq_lib::to_multiset_contains(keys, s[q]);
        assert(s.contains(s[q]));
        let w = choose|w: int| 0 <= w < keys.len() && keys[w] == s[q];
        assert(is_orphan(rows, installs, idx[w]));
    }
}

} // verus!

verus! {

/// The values behind a sequence of references.
pub open spec fn derefs<T>(v: Seq<&T>) -> Seq<T> {
    v.map_values(|x: &T| *x)
}

pub open spec fn on_platform(p: Platform) -> spec_fn(CatalogViewEntry) -> bool {
    |e: CatalogViewEntry| e.catalog.game.platform == p
}

pub open spec fn is_installed() -> spec_fn(CatalogViewEntry) -> bool {
    |e: CatalogViewEntry| e.install is Some
}

pub open spec fn is_not_installed() -> spec_fn(CatalogViewEntry) -> bool {
    |e: CatalogViewEntry| e.install is None
}

pub open spec fn has_game_id(id: Seq<char>) -> spec_fn(CatalogViewEntry) -> bool {
    |e: CatalogViewEntry| e.catalog.game.id@ == id
}

pub open spec fn for_game(id: Seq<char>) -> spec_fn(CompanionItem) -> bool {
    |c: CompanionItem| c.game_id@ == id
}

pub proof fn lemma_filter_step<A>(s: Seq<A>, i: int, p: spec_fn(A) -> bool)
    requires
        0 <= i < s.len(),
    ensures
        s.take(i + 1).filter(p) == (if p(s[i]) {
            s.take(i).filter(p).push(s[i])
        } else {
            s.take(i).filter(p)
        }),
{
    reveal(Seq::filter);
    assert(s.take(i + 1).drop_last() =~= s.take(i));
}

pub proof fn lemma_derefs_push<T>(v: Seq<&T>, x: &T)
    ensures
        derefs(v.push(x)) == derefs(v).push(*x),
{
    assert(derefs(v.push(x)) =~= derefs(v).push(*x));
}

fn same_platform(a: Platform, b: Platform) -> (r: bool)
    ensures
        r == (a == b),
{
    match (a, b) {
        (Platform::Dos, Platform::Dos) => true,
        (Platform::Amiga, Platform::Amiga) => true,
        _ => false,
    }
}

impl CatalogView {
    /// The entries for `platform`, in view order.
    pub fn by_platform(&self, platform: Platform) -> (r: Vec<&CatalogViewEntry>)
        ensures
            derefs(r@) == self.entries_view().filter(on_platform(platform)),
    {
        let ghost s = self.entries@;
        let mut r: Vec<&CatalogViewEntry> = Vec::new();
        let mut i: usize = 0;
        while i < self.entries.len()
            invariant
                i <= s.len(),
                s == self.entries@,
                derefs(r@) == s.take(i as int).filter(on_platform(platform)),
            decreases s.len() - i,
        {
            proof {
                lemma_filter_step(s, i as int, on_platform(platform));
            }
            let e = &self.entries[i];
            if same_platform(e.catalog.game.platform, platform) {
                proof {
                    lemma_derefs_push(r@, e);
                }
                r.push(e);
            }
            i = i + 1;
        }
        assert(s.take(s.len() as int) =~= s);
        r
    }

    /// The entries with an install record, in view order.
    pub fn installed_only(&self) -> (r: Vec<&CatalogViewEntry>)
        ensures
            derefs(r@) == self.entries_view().filter(is_installed()),
    {
        let ghost s = self.entries@;
        let mut r: Vec<&CatalogViewEntry> = Vec::new();
        let mut i: usize = 0;
        while i < self.entries.len()
            invariant
                i <= s.len(),
                s == self.entries@,
                derefs(r@) == s.take(i as int).filter(is_installed()),
            decreases s.len() - i,
        {
            proof {
                lemma_filter_step(s, i as int, is_installed());
            }
            let e = &self.entries[i];
            if e.install.is_some() {
                proof {
                    lemma_derefs_push(r@, e);
                }
                r.push(e);
            }
            i = i + 1;
        }
        assert(s.take(s.len() as int) =~= s);
        r
    }

    /// The entries without an install record, in view order.
    pub fn not_installed(&self) -> (r: Vec<&CatalogViewEntry>)
        ensures
            derefs(r@) == self.entries_view().filter(is_not_installed()),
    {
        let ghost s = self.entries@;
        let mut r: Vec<&CatalogViewEntry> = Vec::new();
        let mut i: usize = 0;
        while i < self.entries.len()
            invariant
                i <= s.len(),
                s == self.entries@,
                derefs(r@) == s.take(i as int).filter(is_not_installed()),
            decreases s.len() - i,
        {
            proof {
                lemma_filter_step(s, i as int, is_not_installed());
            }
            let e = &self.entries[i];
            if e.install.is_none() {
                proof {
                    lemma_derefs_push(r@, e);
                }
                r.push(e);
            }
            i = i + 1;
        }
        assert(s.take(s.len() as int) =~= s);
        r
    }

    /// Every entry with game id `game_id`, winner first.
    pub fn all_with_game_id(&self, game_id: &str) -> (r: Vec<&CatalogViewEntry>)
        ensures
            derefs(r@) == self.entries_view().filter(has_game_id(game_id@)),
    {
        let ghost s = self.entries@;
        let mut r: Vec<&CatalogViewEntry> = Vec::new();
        let mut i: usize = 0;
        while i < self.entries.len()
            invariant
                i <= s.len(),
                s == self.entries@,
                derefs(r@) == s.take(i as int).filter(has_game_id(game_id@)),
            decreases s.len() - i,
        {
            proof {
                lemma_filter_step(s, i as int, has_game_id(game_id@));
            }
            let e = &self.entries[i];
            if crate::text::str_eq(e.catalog.game.id.as_str(), game_id) {
                proof {
                    lemma_derefs_push(r@, e);
                }
                r.push(e);
            }
            i = i + 1;
        }
        assert(s.take(s.len() as int) =~= s);
        r
    }

    /// The companion items for `game_id`, across every tap, in tap
    /// priority order.
    pub fn companion_for(&self, game_id: &str) -> (r: Vec<&CompanionItem>)
        ensures
            derefs(r@) == self.companion_view().filter(for_game(game_id@)),
    {
        let ghost s = self.companion@;
        let mut r: Vec<&CompanionItem> = Vec::new();
        let mut i: usize = 0;
        while i < self.companion.len()
            invariant
                i <= s.len(),
                s == self.companion@,
                derefs(r@) == s.take(i as int).filter(for_game(game_id@)),
            decreases s.len() - i,
        {
            proof {
                lemma_filter_step(s, i as int, for_game(game_id@));
            }
            let c = &self.companion[i];
            if crate::text::str_eq(c.game_id.as_str(), game_id) {
                proof {
                    lemma_derefs_push(r@, c);
                }
                r.push(c);
            }
            i = i + 1;
        }
        assert(s.take(s.len() as int) =~= s);
        r
    }
}

} // verus!
