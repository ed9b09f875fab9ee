//! What the command line shows of the catalog: the entries a listing
//! keeps, one winner per game id, the game ids several taps provide, the
//! text table, and the small decisions around prompts and exit codes.
//! Printing is the program's work.

use vstd::prelude::*;
use vstd::relations::{sorted_by, total_ordering};
use crate::catalog::Platform;
use crate::catalog_view::{derefs, lemma_derefs_push, lemma_filter_step, CatalogView, CatalogViewEntry};
use crate::launch::LaunchPlan;
use crate::order::{name_order, sort_names};
use crate::text::{
    chars_of, decimal, lower_seq, lower_vec, owned, push_char, push_decimal, push_str, seq_eq, str_eq, string_views, trim,
    trim_exec,
};

verus! {

broadcast use vstd::seq_lib::group_to_multiset_ensures;

/// Does a listing with these options keep the entry?
pub open spec fn list_pred(platform: Option<Platform>, installed: bool, not_installed: bool) -> spec_fn(
    CatalogViewEntry,
) -> bool {
    |e: CatalogViewEntry|
        (match platform {
            Some(p) => e.catalog.game.platform == p,
            None => true,
        }) && (if installed {
            e.install is Some
        } else if not_installed {
            e.install is None
        } else {
            true
        })
}

fn keeps(e: &CatalogViewEntry, platform: Option<Platform>, installed: bool, not_installed: bool) -> (r: bool)
    ensures
        r == list_pred(platform, installed, not_installed)(*e),
{
    let platform_ok = match platform {
        Some(Platform::Dos) => match e.catalog.game.platform {
            Platform::Dos => true,
            Platform::Amiga => false,
        },
        Some(Platform::Amiga) => match e.catalog.game.platform {
            Platform::Amiga => true,
            Platform::Dos => false,
        },
        None => true,
    };
    let install_ok = if installed {
        e.install.is_some()
    } else if not_installed {
        e.install.is_none()
    } else {
        true
    };
    platform_ok && install_ok
}

/// The entries a listing shows before winners are picked, in view order.
pub fn filter_entries(view: &CatalogView, platform: Option<Platform>, installed: bool, not_installed: bool) -> (r: Vec<
    &CatalogViewEntry,
>)
    ensures
        derefs(r@) == view.entries_view().filter(list_pred(platform, installed, not_installed)),
{
    let all = view.all();
    let ghost s = view.entries_view();
    let ghost p = list_pred(platform, installed, not_installed);
    let mut r: Vec<&CatalogViewEntry> = Vec::new();
    let mut i: usize = 0;
    while i < all.len()
        invariant
            i <= s.len(),
            s == all@,
            p == list_pred(platform, installed, not_installed),
            derefs(r@) == s.take(i as int).filter(p),
        decreases s.len() - i,
    {
        proof {
            lemma_filter_step(s, i as int, p);
        }
        let e = &all[i];
        if keeps(e, platform, installed, not_installed) {
            proof {
                lemma_derefs_push(r@, e);
            }
            r.push(e);
        }
        i = i + 1;
    }
    assert(s.take(s.len() as int) =~= s);
    r
}

/// Is the entry at `i` the first with its game id?
pub open spec fn first_with_id(es: Seq<CatalogViewEntry>, i: int) -> bool {
    forall|j: int| 0 <= j < i ==> (#[trigger] es[j]).catalog.game.id@ != es[i].catalog.game.id@
}

/// The first entry of each game id, in order: since the view lists the
/// winning tap first, these are the winners.
pub open spec fn winners_spec(es: Seq<CatalogViewEntry>, n: int) -> Seq<CatalogViewEntry>
    decreases n,
{
    if n <= 0 {
        Seq::empty()
    } else if first_with_id(es, n - 1) {
        winners_spec(es, n - 1).push(es[n - 1])
    } else {
        winners_spec(es, n - 1)
    }
}

fn is_first_with_id(es: &Vec<&CatalogViewEntry>, i: usize) -> (r: bool)
    requires
        i < es@.len(),
    ensures
        r == first_with_id(derefs(es@), i as int),
{
    let mut j: usize = 0;
    while j < i
        invariant
            i < es@.len(),
            j <= i,
            forall|k: int| 0 <= k < j ==> (#[trigger] derefs(es@)[k]).catalog.game.id@ != derefs(es@)[i as int].catalog.game.id@,
        decreases i - j,
    {
        assert(derefs(es@)[j as int] == *es@[j as int]);
        assert(derefs(es@)[i as int] == *es@[i as int]);
        if str_eq(es[j].catalog.game.id.as_str(), es[i].catalog.game.id.as_str()) {
            return false;
        }
        j = j + 1;
    }
    true
}

/// One entry per game id: the first, which in view order is the winner.
pub fn winners<'a>(entries: &Vec<&'a CatalogViewEntry>) -> (r: Vec<&'a CatalogViewEntry>)
    ensures
        derefs(r@) == winners_spec(derefs(entries@), entries@.len() as int),
{
    let ghost es = derefs(entries@);
    let mut r: Vec<&CatalogViewEntry> = Vec::new();
    let mut i: usize = 0;
    while i < entries.len()
        invariant
            i <= entries@.len(),
            es == derefs(entries@),
            derefs(r@) == winners_spec(es, i as int),
        decreases entries@.len() - i,
    {
        assert(es[i as int] == *entries@[i as int]);
        if is_first_with_id(entries, i) {
            proof {
                lemma_derefs_push(r@, entries[i as int]);
            }
            r.push(entries[i]);
        }
        i = i + 1;
    }
    r
}

/// Does the answer to a yes/no prompt say yes (`y` or `Y`, whitespace
/// around it ignored)?
pub fn yes_answer(line: &str) -> (r: bool)
    ensures
        r == (lower_seq(trim(line@)) == seq!['y']),
{
    let t = trim_exec(chars_of(line).as_slice());
    let l = lower_vec(t.as_slice());
    let y: Vec<char> = vec!['y'];
    assert(y@ =~= seq!['y']);
    seq_eq(l.as_slice(), y.as_slice())
}

/// The exit code of a run: the emulator's own code, capped at 255, or
/// failure (1) when it has none or a negative one.
pub fn run_exit_code(code: Option<i32>) -> (r: u8)
    ensures
        r == match code {
            Some(c) => if c < 0 {
                1
            } else if c > 255 {
                255
            } else {
                c as int
            },
            None => 1,
        },
{
    match code {
        Some(c) => {
            if c < 0 {
                1
            } else if c > 255 {
                255
            } else {
                c as u8
            }
        },
        None => 1,
    }
}

pub open spec fn launch_line(name: Seq<char>, line: Seq<char>) -> Seq<char> {
    "[sidecar:"@ + name + "] "@ + line
}

/// The lines a dry run of a launch prints: `[sidecar:<name>] <command>`
/// for each sidecar, then `[primary] <command>`.
pub fn launch_dry_run_lines(plan: &LaunchPlan) -> (r: Vec<String>)
    ensures
        r@.len() == plan.sidecars@.len() + 1,
        forall|i: int| 0 <= i < plan.sidecars@.len() ==> (#[trigger] r@[i])@ == launch_line(
            plan.sidecars@[i].name@,
            crate::launch::display_spec(
                plan.sidecars@[i].command.program@,
                string_views(plan.sidecars@[i].command.args@),
            ),
        ),
        r@[plan.sidecars@.len() as int]@ == "[primary] "@ + crate::launch::display_spec(
            plan.primary.program@,
            string_views(plan.primary.args@),
        ),
{
    let mut r: Vec<String> = Vec::new();
    let mut i: usize = 0;
    while i < plan.sidecars.len()
        invariant
            i <= plan.sidecars@.len(),
            r@.len() == i,
            forall|k: int| 0 <= k < i ==> (#[trigger] r@[k])@ == launch_line(
                plan.sidecars@[k].name@,
                crate::launch::display_spec(
                    plan.sidecars@[k].command.program@,
                    string_views(plan.sidecars@[k].command.args@),
                ),
            ),
        decreases plan.sidecars@.len() - i,
    {
        let mut line = owned("[sidecar:");
        push_str(&mut line, plan.sidecars[i].name.as_str());
        push_str(&mut line, "] ");
        let d = plan.sidecars[i].command.display_line();
        push_str(&mut line, d.as_str());
        r.push(line);
        i = i + 1;
    }
    let mut line = owned("[primary] ");
    let d = plan.primary.display_line();
    push_str(&mut line, d.as_str());
    r.push(line);
    r
}

/// What a bulk migration does with an entry.
#[derive(Debug, Clone, Copy, PartialEq, Eq, Structural)]
pub enum MigrationStep {
    /// It already has an install record.
    AlreadyInstalled,
    /// Nothing is at `<base>/<id>`.
    NotFound,
    /// Register the files at `<base>/<id>`.
    Register,
}

pub fn migration_step(installed: bool, dir_exists: bool) -> (r: MigrationStep)
    ensures
        r == if installed {
            MigrationStep::AlreadyInstalled
        } else if !dir_exists {
            MigrationStep::NotFound
        } else {
            MigrationStep::Register
        },
{
    if installed {
        MigrationStep::AlreadyInstalled
    } else if !dir_exists {
        MigrationStep::NotFound
    } else {
        MigrationStep::Register
    }
}

/// The closing line of a migration and its exit code (2 when any record
/// failed).
pub fn migration_summary(migrated: u64, skipped: u64, missing: u64, errors: u64, base: &str) -> (r: (String, u8))
    ensures
        r.0@ == "Done: "@ + decimal(migrated as nat) + " migrated, "@ + decimal(skipped as nat)
            + " already installed, "@ + decimal(missing as nat) + " not found under "@ + base@ + ", "@
            + decimal(errors as nat) + " errors."@,
        r.1 == if errors > 0 { 2u8 } else { 0u8 },
{
    let mut s = owned("Done: ");
    push_decimal(&mut s, migrated);
    push_str(&mut s, " migrated, ");
    push_decimal(&mut s, skipped);
    push_str(&mut s, " already installed, ");
    push_decimal(&mut s, missing);
    push_str(&mut s, " not found under ");
    push_str(&mut s, base);
    push_str(&mut s, ", ");
    push_decimal(&mut s, errors);
    push_str(&mut s, " errors.");
    (s, if errors > 0 { 2 } else { 0 })
}

} // verus!

verus! {

/// The keys in order of first appearance, each once.
pub open spec fn distinct(ks: Seq<Seq<char>>, n: int) -> Seq<Seq<char>>
    decreases n,
{
    if n <= 0 {
        Seq::empty()
    } else if ks.take(n - 1).contains(ks[n - 1]) {
        distinct(ks, n - 1)
    } else {
        distinct(ks, n - 1).push(ks[n - 1])
    }
}

pub(crate) fn distinct_exec(ks: &Vec<String>) -> (r: Vec<String>)
    ensures
        string_views(r@) == distinct(string_views(ks@), ks@.len() as int),
{
    let ghost kv = string_views(ks@);
    let mut r: Vec<String> = Vec::new();
    let mut i: usize = 0;
    while i < ks.len()
        invariant
            i <= ks@.len(),
            kv == string_views(ks@),
            string_views(r@) == distinct(kv, i as int),
        decreases ks@.len() - i,
    {
        let mut seen = false;
        let mut j: usize = 0;
        while j < i
            invariant
                j <= i < ks@.len(),
                kv == string_views(ks@),
                seen == exists|q: int| 0 <= q < j && kv[q] == kv[i as int],
            decreases i - j,
        {
            assert(kv[j as int] == ks@[j as int]@);
            assert(kv[i as int] == ks@[i as int]@);
            if str_eq(ks[j].as_str(), ks[i].as_str()) {
                seen = true;
            }
            j = j + 1;
        }
        proof {
            let t = kv.take(i as int);
            if seen {
                let q = choose|q: int| 0 <= q < i && kv[q] == kv[i as int];
                assert(t[q] == kv[i as int]);
            } else {
                assert forall|q: int| 0 <= q < t.len() implies t[q] != kv[i as int] by {
                    assert(t[q] == kv[q]);
                }
            }
        }
        if !seen {
            let ghost before = r@;
            r.push(ks[i].clone());
            assert(string_views(r@) =~= string_views(before).push(kv[i as int]));
        }
        i = i + 1;
    }
    r
}

pub open spec fn entry_ids(es: Seq<CatalogViewEntry>) -> Seq<Seq<char>> {
    es.map_values(|e: CatalogViewEntry| e.catalog.game.id@)
}

pub open spec fn with_id(id: Seq<char>) -> spec_fn(CatalogViewEntry) -> bool {
    |e: CatalogViewEntry| e.catalog.game.id@ == id
}

/// Priorities with their places, ordered by priority, places breaking
/// ties.
pub open spec fn iprio_le(a: (int, int), b: (int, int)) -> bool {
    a.0 < b.0 || (a.0 == b.0 && a.1 <= b.1)
}

pub open spec fn iprio_order() -> spec_fn((int, int), (int, int)) -> bool {
    |a: (int, int), b: (int, int)| iprio_le(a, b)
}

pub open spec fn group_keys(g: Seq<CatalogViewEntry>) -> Seq<(int, int)> {
    Seq::new(g.len(), |k: int| (g[k].priority as int, k))
}

pub open spec fn idx_pairs(v: Seq<(i32, usize)>) -> Seq<(int, int)> {
    v.map_values(|p: (i32, usize)| (p.0 as int, p.1 as int))
}

/// The places of a group's entries, by priority (a stable sort).
fn order_by_priority(g: &Vec<&CatalogViewEntry>) -> (r: Vec<(i32, usize)>)
    ensures
        idx_pairs(r@) == group_keys(derefs(g@)).sort_by(iprio_order()),
{
    let ghost keys = group_keys(derefs(g@));
    assert(total_ordering(iprio_order()));
    let mut out: Vec<(i32, usize)> = Vec::new();
    let mut i: usize = 0;
    while i < g.len()
        invariant
            i <= g@.len(),
            keys == group_keys(derefs(g@)),
            total_ordering(iprio_order()),
            sorted_by(idx_pairs(out@), iprio_order()),
            idx_pairs(out@).to_multiset() == keys.take(i as int).to_multiset(),
            forall|k: int| 0 <= k < out@.len() ==> (#[trigger] out@[k]).1 < i,
        decreases g@.len() - i,
    {
        let x = (g[i].priority, i);
        assert(derefs(g@)[i as int] == *g@[i as int]);
        let mut j: usize = 0;
        while j < out.len() && !(x.0 < out[j].0)
            invariant
                j <= out@.len(),
                forall|k: int| 0 <= k < j ==> (#[trigger] out@[k]).0 <= x.0,
            decreases out@.len() - j,
        {
            j = j + 1;
        }
        let ghost before = out@;
        out.insert(j, x);
        proof {
            let kb = idx_pairs(before);
            let ko = idx_pairs(out@);
            assert(ko =~= kb.insert(j as int, (x.0 as int, x.1 as int)));
            assert forall|a: int, b: int| 0 <= a < b < ko.len() implies #[trigger] iprio_order()(ko[a], ko[b]) by {
                if b < j {
                    assert(iprio_order()(kb[a], kb[b]));
                } else if a > j {
                    assert(iprio_order()(kb[a - 1], kb[b - 1]));
                } else if a == j {
                    assert(x.0 < before[j as int].0);
                    if b - 1 > j {
                        assert(iprio_order()(kb[j as int], kb[b - 1]));
                    }
                } else {
                    assert(before[a].0 <= x.0);
                    assert(before[a].1 < i);
                }
            }
            assert(keys.take(i + 1) =~= keys.take(i as int).push((x.0 as int, x.1 as int)));
        }
        i = i + 1;
    }
    proof {
        assert(keys.take(g@.len() as int) =~= keys);
        keys.lemma_sort_by_ensures(iprio_order());
        vstd::seq_lib::lemma_sorted_unique(idx_pairs(out@), keys.sort_by(iprio_order()), iprio_order());
    }
    out
}

/// A game id several taps provide, with each tap and its priority, the
/// winner (lowest priority) first.
pub struct ConflictGroup {
    pub id: String,
    pub taps: Vec<(String, i32)>,
}

pub open spec fn group_taps(g: Seq<CatalogViewEntry>) -> Seq<(Seq<char>, i32)> {
    let s = group_keys(g).sort_by(iprio_order());
    Seq::new(s.len(), |q: int| (g[s[q].1].tap_id@, g[s[q].1].priority))
}

/// Is the id provided by more than one of the entries?
pub open spec fn multi_pred(es: Seq<CatalogViewEntry>) -> spec_fn(Seq<char>) -> bool {
    |id: Seq<char>| es.filter(with_id(id)).len() > 1
}

/// The game ids provided more than once among the entries, in `str`
/// order.
pub open spec fn conflict_ids(es: Seq<CatalogViewEntry>) -> Seq<Seq<char>> {
    distinct(entry_ids(es), es.len() as int).filter(multi_pred(es)).sort_by(name_order())
}

pub open spec fn group_view(c: ConflictGroup) -> (Seq<char>, Seq<(Seq<char>, i32)>) {
    (c.id@, c.taps@.map_values(|t: (String, i32)| (t.0@, t.1)))
}


fn entries_with_id<'a>(entries: &Vec<&'a CatalogViewEntry>, id: &str) -> (r: Vec<&'a CatalogViewEntry>)
    ensures
        derefs(r@) == derefs(entries@).filter(with_id(id@)),
{
    let ghost s = derefs(entries@);
    let mut r: Vec<&CatalogViewEntry> = Vec::new();
    let mut i: usize = 0;
    while i < entries.len()
        invariant
            i <= entries@.len(),
            s == derefs(entries@),
            derefs(r@) == s.take(i as int).filter(with_id(id@)),
        decreases entries@.len() - i,
    {
        proof {
            lemma_filter_step(s, i as int, with_id(id@));
        }
        assert(s[i as int] == *entries@[i as int]);
        if str_eq(entries[i].catalog.game.id.as_str(), id) {
            proof {
                lemma_derefs_push(r@, entries[i as int]);
            }
            r.push(entries[i]);
        }
        i = i + 1;
    }
    assert(s.take(s.len() as int) =~= s);
    r
}

/// The game ids several of the entries provide, in `str` order, each
/// with its taps and their priorities, the winner first.
pub fn conflicts(entries: &Vec<&CatalogViewEntry>) -> (r: Vec<ConflictGroup>)
    ensures
        r@.len() == conflict_ids(derefs(entries@)).len(),
        forall|q: int| 0 <= q < r@.len() ==> #[trigger] group_view(r@[q]) == (
            conflict_ids(derefs(entries@))[q],
            group_taps(derefs(entries@).filter(with_id(conflict_ids(derefs(entries@))[q]))),
        ),
{
    let ghost es = derefs(entries@);
    let mut ids: Vec<String> = Vec::new();
    let mut i: usize = 0;
    while i < entries.len()
        invariant
            i <= entries@.len(),
            es == derefs(entries@),
            string_views(ids@) == entry_ids(es).take(i as int),
        decreases entries@.len() - i,
    {
        assert(es[i as int] == *entries@[i as int]);
        let ghost before = ids@;
        let idc = entries[i].catalog.game.id.clone();
        assert(idc@ == es[i as int].catalog.game.id@);
        ids.push(idc);
        assert(string_views(ids@) =~= string_views(before).push(es[i as int].catalog.game.id@));
        assert(entry_ids(es).take(i + 1) =~= entry_ids(es).take(i as int).push(es[i as int].catalog.game.id@));
        assert(string_views(ids@) =~= entry_ids(es).take(i + 1));
        i = i + 1;
    }
    assert(entry_ids(es).take(entries@.len() as int) =~= entry_ids(es));
    let d = distinct_exec(&ids);
    let ghost dv = string_views(d@);
    let mut multi: Vec<String> = Vec::new();
    let mut k: usize = 0;
    while k < d.len()
        invariant
            k <= d@.len(),
            dv == string_views(d@),
            es == derefs(entries@),
            string_views(multi@) == dv.take(k as int).filter(multi_pred(es)),
        decreases d@.len() - k,
    {
        proof {
            lemma_filter_step(dv, k as int, multi_pred(es));
        }
        assert(dv[k as int] == d@[k as int]@);
        let g = entries_with_id(entries, d[k].as_str());
        assert(derefs(g@).len() == g@.len());
        if g.len() > 1 {
            let ghost before = multi@;
            multi.push(d[k].clone());
            assert(string_views(multi@) =~= string_views(before).push(dv[k as int]));
        }
        k = k + 1;
    }
    assert(dv.take(d@.len() as int) =~= dv);
    let sorted = sort_names(&multi);
    let ghost ids_spec = conflict_ids(es);
    assert(string_views(sorted@) == ids_spec);
    let mut out: Vec<ConflictGroup> = Vec::new();
    let mut q: usize = 0;
    while q < sorted.len()
        invariant
            q <= sorted@.len(),
            es == derefs(entries@),
            string_views(sorted@) == ids_spec,
            ids_spec == conflict_ids(es),
            out@.len() == q,
            forall|w: int| 0 <= w < q ==> #[trigger] group_view(out@[w]) == (
                ids_spec[w],
                group_taps(es.filter(with_id(ids_spec[w]))),
            ),
        decreases sorted@.len() - q,
    {
        assert(ids_spec[q as int] == sorted@[q as int]@);
        let g = entries_with_id(entries, sorted[q].as_str());
        let ghost gv = derefs(g@);
        let order = order_by_priority(&g);
        let ghost ov = idx_pairs(order@);
        proof {
            let keys = group_keys(gv);
            assert(total_ordering(iprio_order()));
            keys.lemma_sort_by_ensures(iprio_order());
            assert forall|w: int| 0 <= w < ov.len() implies 0 <= (#[trigger] ov[w]).1 < gv.len() by {
                assert(ov.to_multiset().count(ov[w]) > 0);
                assert(keys.to_multiset().count(ov[w]) > 0);
                assert(keys.contains(ov[w]));
            }
        }
        let mut taps: Vec<(String, i32)> = Vec::new();
        let mut t: usize = 0;
        while t < order.len()
            invariant
                t <= order@.len(),
                ov == idx_pairs(order@),
                gv == derefs(g@),
                ov == group_keys(gv).sort_by(iprio_order()),
                forall|w: int| 0 <= w < ov.len() ==> 0 <= (#[trigger] ov[w]).1 < gv.len(),
                taps@.len() == t,
                forall|w: int| 0 <= w < t ==> (#[trigger] taps@[w]).0@ == gv[ov[w].1].tap_id@ && taps@[w].1
                    == gv[ov[w].1].priority,
            decreases order@.len() - t,
        {
            let idx = order[t].1;
            assert(ov[t as int].1 == idx as int);
            assert(gv[idx as int] == *g@[idx as int]);
            taps.push((g[idx].tap_id.clone(), g[idx].priority));
            t = t + 1;
        }
        let c = ConflictGroup { id: sorted[q].clone(), taps };
        assert(c.taps@.map_values(|x: (String, i32)| (x.0@, x.1)) =~= group_taps(gv));
        out.push(c);
        q = q + 1;
    }
    out
}


/// The collection a table groups an entry under.
pub open spec fn coll_key(e: CatalogViewEntry) -> Seq<char> {
    match e.catalog.game.collection {
        Some(c) => c@,
        None => "(no collection)"@,
    }
}

pub open spec fn coll_keys(es: Seq<CatalogViewEntry>) -> Seq<Seq<char>> {
    es.map_values(|e: CatalogViewEntry| coll_key(e))
}

pub open spec fn with_coll(k: Seq<char>) -> spec_fn(CatalogViewEntry) -> bool {
    |e: CatalogViewEntry| coll_key(e) == k
}

/// `s` padded with spaces to `w` characters (`{:<w}`).
pub open spec fn pad(s: Seq<char>, w: nat) -> Seq<char> {
    if s.len() >= w {
        s
    } else {
        s + Seq::new((w - s.len()) as nat, |i: int| ' ')
    }
}

pub open spec fn year_text(y: Option<u32>) -> Seq<char> {
    match y {
        Some(v) => decimal(v as nat),
        None => "----"@,
    }
}

/// One row of the table: id, title and year in columns, then whether the
/// game is installed.
pub open spec fn row_line(e: CatalogViewEntry) -> Seq<char> {
    "  "@ + pad(e.catalog.game.id@, 14) + "  "@ + pad(e.catalog.game.title@, 35) + "  "@ + pad(
        year_text(e.catalog.meta.year),
        5,
    ) + "  "@ + if e.install is Some {
        "installed"@
    } else {
        "not installed"@
    }
}

pub open spec fn rows_of(es: Seq<CatalogViewEntry>) -> Seq<Seq<char>> {
    es.map_values(|e: CatalogViewEntry| row_line(e))
}

pub open spec fn table_from(es: Seq<CatalogViewEntry>, keys: Seq<Seq<char>>, n: int) -> Seq<Seq<char>>
    decreases n,
{
    if n <= 0 {
        Seq::empty()
    } else {
        table_from(es, keys, n - 1) + (if n - 1 > 0 {
            seq![Seq::<char>::empty()]
        } else {
            Seq::empty()
        }) + seq![keys[n - 1]] + rows_of(es.filter(with_coll(keys[n - 1])))
    }
}

/// The lines of the table: one block per collection in `str` order (a
/// blank line between blocks), each its name, then its entries' rows in
/// order.
pub open spec fn table_lines(es: Seq<CatalogViewEntry>) -> Seq<Seq<char>> {
    let keys = distinct(coll_keys(es), es.len() as int).sort_by(name_order());
    table_from(es, keys, keys.len() as int)
}

fn push_padded(out: &mut String, s: &str, w: usize)
    ensures
        final(out)@ == old(out)@ + pad(s@, w as nat),
{
    let ghost start = out@;
    push_str(out, s);
    let n = chars_of(s).len();
    if n >= w {
        return;
    }
    let mut k: usize = n;
    while k < w
        invariant
            n <= k <= w,
            n == s@.len(),
            out@ == start + s@ + Seq::new((k - n) as nat, |i: int| ' '),
        decreases w - k,
    {
        push_char(out, ' ');
        k = k + 1;
        assert(out@ =~= start + s@ + Seq::new((k - n) as nat, |i: int| ' '));
    }
}

fn row_text(e: &CatalogViewEntry) -> (r: String)
    ensures
        r@ == row_line(*e),
{
    let mut r = owned("  ");
    push_padded(&mut r, e.catalog.game.id.as_str(), 14);
    push_str(&mut r, "  ");
    push_padded(&mut r, e.catalog.game.title.as_str(), 35);
    push_str(&mut r, "  ");
    let mut year = String::new();
    match e.catalog.meta.year {
        Some(y) => push_decimal(&mut year, y as u64),
        None => push_str(&mut year, "----"),
    }
    assert(year@ =~= year_text(e.catalog.meta.year));
    push_padded(&mut r, year.as_str(), 5);
    push_str(&mut r, "  ");
    if e.install.is_some() {
        push_str(&mut r, "installed");
    } else {
        push_str(&mut r, "not installed");
    }
    r
}

fn coll_key_of(e: &CatalogViewEntry) -> (r: String)
    ensures
        r@ == coll_key(*e),
{
    match &e.catalog.game.collection {
        Some(c) => c.clone(),
        None => owned("(no collection)"),
    }
}

/// The listing table as lines.
pub fn table_lines_for(entries: &Vec<&CatalogViewEntry>) -> (r: Vec<String>)
    ensures
        string_views(r@) == table_lines(derefs(entries@)),
{
    let ghost es = derefs(entries@);
    let mut keys: Vec<String> = Vec::new();
    let mut i: usize = 0;
    while i < entries.len()
        invariant
            i <= entries@.len(),
            es == derefs(entries@),
            string_views(keys@) == coll_keys(es).take(i as int),
        decreases entries@.len() - i,
    {
        assert(es[i as int] == *entries@[i as int]);
        let ghost before = keys@;
        let k = coll_key_of(entries[i]);
        keys.push(k);
        assert(string_views(keys@) =~= string_views(before).push(coll_key(es[i as int])));
        assert(coll_keys(es).take(i + 1) =~= coll_keys(es).take(i as int).push(coll_key(es[i as int])));
        i = i + 1;
    }
    assert(coll_keys(es).take(entries@.len() as int) =~= coll_keys(es));
    let d = distinct_exec(&keys);
    let sorted = sort_names(&d);
    let ghost kv = string_views(sorted@);
    let mut out: Vec<String> = Vec::new();
    let mut g: usize = 0;
    while g < sorted.len()
        invariant
            g <= sorted@.len(),
            es == derefs(entries@),
            kv == string_views(sorted@),
            kv == distinct(coll_keys(es), es.len() as int).sort_by(name_order()),
            string_views(out@) == table_from(es, kv, g as int),
        decreases sorted@.len() - g,
    {
        assert(kv[g as int] == sorted@[g as int]@);
        let ghost before = string_views(out@);
        if g > 0 {
            out.push(String::new());
        }
        out.push(sorted[g].clone());
        let ghost mid = string_views(out@);
        assert(mid =~= before + (if g > 0 { seq![Seq::<char>::empty()] } else { Seq::empty() }) + seq![kv[g as int]]);
        let mut j: usize = 0;
        let ghost key = kv[g as int];
        while j < entries.len()
            invariant
                j <= entries@.len(),
                es == derefs(entries@),
                key == sorted@[g as int]@,
                g < sorted@.len(),
                string_views(out@) == mid + rows_of(es.take(j as int).filter(with_coll(key))),
            decreases entries@.len() - j,
        {
            proof {
                lemma_filter_step(es, j as int, with_coll(key));
            }
            assert(es[j as int] == *entries@[j as int]);
            let k = coll_key_of(entries[j]);
            if str_eq(k.as_str(), sorted[g].as_str()) {
                let ghost b2 = string_views(out@);
                out.push(row_text(entries[j]));
                assert(rows_of(es.take(j + 1).filter(with_coll(key))) =~= rows_of(es.take(j as int).filter(with_coll(key))).push(row_line(es[j as int])));
                assert(string_views(out@) =~= b2.push(row_line(es[j as int])));
            } else {
                assert(es.take(j + 1).filter(with_coll(key)) == es.take(j as int).filter(with_coll(key)));
            }
            j = j + 1;
        }
        assert(es.take(es.len() as int) =~= es);
        g = g + 1;
        assert(string_views(out@) =~= table_from(es, kv, g as int));
    }
    out
}

} // verus!
