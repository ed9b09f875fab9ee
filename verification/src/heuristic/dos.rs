//! DOS entry points: a ranked list of the programs the launcher could run
//! after mounting `C:`. Batch files are preferred to executables, setup
//! programs are left out, and names matching the directory rank first.

use vstd::prelude::*;
use crate::heuristic::ListedEntry;
use crate::order::{exe_order, exe_views, sort_exes};
use crate::paths::{file_name, file_name_spec};
use crate::text::{
    chars_of, contains_exec, contains_seq, decimal, is_alnum, is_alnum_exec, lower, lower_char,
    owned, push_decimal, push_str, rsplit_once, rsplit_once_exec, seq_eq, string_from,
    string_views, upper_seq, upper_vec, views,
};

verus! {

#[derive(Debug, Clone, PartialEq, Eq)]
pub struct EntryPointCandidate {
    /// File name as listed (case preserved).
    pub file_name: String,
    pub kind: EntryPointKind,
    /// Why the candidate ranks where it does.
    pub reason: String,
}

#[derive(Debug, Clone, Copy, PartialEq, Eq, Structural)]
pub enum EntryPointKind {
    Bat,
    Exe,
    Com,
}

pub type CandView = (Seq<char>, EntryPointKind, Seq<char>);

impl EntryPointCandidate {
    pub open spec fn view(&self) -> CandView {
        (self.file_name@, self.kind, self.reason@)
    }
}

pub open spec fn cand_views(v: Seq<EntryPointCandidate>) -> Seq<CandView> {
    v.map_values(|c: EntryPointCandidate| c.view())
}

/// Setup programs, never offered as entry points.
pub open spec fn excluded_stem(upper_stem: Seq<char>) -> bool {
    upper_stem == "INSTALL"@ || upper_stem == "SETUP"@ || upper_stem == "UNINSTAL"@ || upper_stem
        == "UNINSTALL"@
}

/// The kind of entry point `e` could be, if any.
pub open spec fn dos_kind(e: ListedEntry) -> Option<EntryPointKind> {
    if !e.is_file {
        None
    } else {
        match rsplit_once(e.name@, '.') {
            None => None,
            Some(parts) => if excluded_stem(upper_seq(parts.0)) {
                None
            } else if upper_seq(parts.1) == "BAT"@ {
                Some(EntryPointKind::Bat)
            } else if upper_seq(parts.1) == "EXE"@ {
                Some(EntryPointKind::Exe)
            } else if upper_seq(parts.1) == "COM"@ {
                Some(EntryPointKind::Com)
            } else {
                None
            },
        }
    }
}

pub open spec fn text_view(t: Option<String>) -> Option<Seq<char>> {
    match t {
        Some(s) => Some(s@),
        None => None,
    }
}

/// The batch files of `es`, with their text, in listing order.
pub open spec fn bats_of(es: Seq<ListedEntry>) -> Seq<(Seq<char>, Option<Seq<char>>)>
    decreases es.len(),
{
    if es.len() == 0 {
        Seq::empty()
    } else if dos_kind(es.last()) == Some(EntryPointKind::Bat) {
        bats_of(es.drop_last()).push((es.last().name@, text_view(es.last().text)))
    } else {
        bats_of(es.drop_last())
    }
}

/// The executables of `es`, with their sizes, in listing order.
pub open spec fn exes_of(es: Seq<ListedEntry>) -> Seq<(Seq<char>, u64)>
    decreases es.len(),
{
    if es.len() == 0 {
        Seq::empty()
    } else if dos_kind(es.last()) == Some(EntryPointKind::Exe) {
        exes_of(es.drop_last()).push((es.last().name@, es.last().size))
    } else {
        exes_of(es.drop_last())
    }
}

/// The `.COM` programs of `es`, in listing order.
pub open spec fn coms_of(es: Seq<ListedEntry>) -> Seq<Seq<char>>
    decreases es.len(),
{
    if es.len() == 0 {
        Seq::empty()
    } else if dos_kind(es.last()) == Some(EntryPointKind::Com) {
        coms_of(es.drop_last()).push(es.last().name@)
    } else {
        coms_of(es.drop_last())
    }
}

/// Lowercased ASCII letters and digits of `s`; everything else dropped.
pub open spec fn stem_canonical(s: Seq<char>) -> Seq<char>
    decreases s.len(),
{
    if s.len() == 0 {
        Seq::empty()
    } else if is_alnum(s.last()) {
        stem_canonical(s.drop_last()).push(lower(s.last()))
    } else {
        stem_canonical(s.drop_last())
    }
}

pub open spec fn file_stem_canonical(name: Seq<char>) -> Seq<char> {
    match rsplit_once(name, '.') {
        Some(parts) => stem_canonical(parts.0),
        None => stem_canonical(name),
    }
}

/// The canonical stem of the directory's own name (empty when it has
/// none).
pub open spec fn dir_stem(dir: Seq<char>) -> Seq<char> {
    match file_name_spec(dir) {
        Some(n) => stem_canonical(n),
        None => Seq::empty(),
    }
}

pub open spec fn upper_names(exes: Seq<(Seq<char>, u64)>) -> Seq<Seq<char>>
    decreases exes.len(),
{
    if exes.len() == 0 {
        Seq::empty()
    } else {
        upper_names(exes.drop_last()).push(upper_seq(exes.last().0))
    }
}

/// The first of `names` that occurs in `body`.
pub open spec fn first_ref(body: Seq<char>, names: Seq<Seq<char>>) -> Option<Seq<char>>
    decreases names.len(),
{
    if names.len() == 0 {
        None
    } else if contains_seq(body, names[0]) {
        Some(names[0])
    } else {
        first_ref(body, names.drop_first())
    }
}

/// The executable (upper-cased) that a batch file's text names first, by
/// the order of `exes`.
pub open spec fn referenced_exe(text: Option<Seq<char>>, exes: Seq<(Seq<char>, u64)>) -> Option<
    Seq<char>,
> {
    match text {
        Some(t) => first_ref(upper_seq(t), upper_names(exes)),
        None => None,
    }
}

/// Batch files whose stem matches the directory.
pub open spec fn tier_bat_named(bats: Seq<(Seq<char>, Option<Seq<char>>)>, ds: Seq<char>) -> Seq<
    CandView,
>
    decreases bats.len(),
{
    if bats.len() == 0 {
        Seq::empty()
    } else if ds.len() > 0 && file_stem_canonical(bats.last().0) == ds {
        tier_bat_named(bats.drop_last(), ds).push(
            (bats.last().0, EntryPointKind::Bat, "BAT script matching the directory name"@),
        )
    } else {
        tier_bat_named(bats.drop_last(), ds)
    }
}

/// Batch files that invoke one of the executables.
pub open spec fn tier_bat_invoking(
    bats: Seq<(Seq<char>, Option<Seq<char>>)>,
    exes: Seq<(Seq<char>, u64)>,
) -> Seq<CandView>
    decreases bats.len(),
{
    if bats.len() == 0 {
        Seq::empty()
    } else {
        match referenced_exe(bats.last().1, exes) {
            Some(x) => tier_bat_invoking(bats.drop_last(), exes).push(
                (bats.last().0, EntryPointKind::Bat, "BAT script invoking "@ + x),
            ),
            None => tier_bat_invoking(bats.drop_last(), exes),
        }
    }
}

/// Executables whose stem matches the directory.
pub open spec fn tier_exe_named(exes: Seq<(Seq<char>, u64)>, ds: Seq<char>) -> Seq<CandView>
    decreases exes.len(),
{
    if exes.len() == 0 {
        Seq::empty()
    } else if ds.len() > 0 && file_stem_canonical(exes.last().0) == ds {
        tier_exe_named(exes.drop_last(), ds).push(
            (exes.last().0, EntryPointKind::Exe, "EXE matching the directory name"@),
        )
    } else {
        tier_exe_named(exes.drop_last(), ds)
    }
}

/// Every batch file, as a fallback.
pub open spec fn tier_bat_any(bats: Seq<(Seq<char>, Option<Seq<char>>)>) -> Seq<CandView>
    decreases bats.len(),
{
    if bats.len() == 0 {
        Seq::empty()
    } else {
        tier_bat_any(bats.drop_last()).push(
            (bats.last().0, EntryPointKind::Bat, "BAT script (fallback)"@),
        )
    }
}

pub open spec fn size_reason(size: u64) -> Seq<char> {
    "EXE ("@ + decimal(size as nat) + " bytes)"@
}

/// Executables in the order given (largest first once sorted).
pub open spec fn tier_exe_sized(sorted: Seq<(Seq<char>, u64)>) -> Seq<CandView>
    decreases sorted.len(),
{
    if sorted.len() == 0 {
        Seq::empty()
    } else {
        tier_exe_sized(sorted.drop_last()).push(
            (sorted.last().0, EntryPointKind::Exe, size_reason(sorted.last().1)),
        )
    }
}

/// `.COM` programs, last of all.
pub open spec fn tier_com(coms: Seq<Seq<char>>) -> Seq<CandView>
    decreases coms.len(),
{
    if coms.len() == 0 {
        Seq::empty()
    } else {
        tier_com(coms.drop_last()).push((coms.last(), EntryPointKind::Com, "COM executable"@))
    }
}

pub open spec fn has_name(s: Seq<CandView>, n: Seq<char>) -> bool {
    exists|k: int| 0 <= k < s.len() && (#[trigger] s[k]).0 == n
}

/// `acc` followed by those of `s` whose name is not yet present, each
/// name kept at its first place.
pub open spec fn add_all(acc: Seq<CandView>, s: Seq<CandView>) -> Seq<CandView>
    decreases s.len(),
{
    if s.len() == 0 {
        acc
    } else {
        let a = add_all(acc, s.drop_last());
        if has_name(a, s.last().0) {
            a
        } else {
            a.push(s.last())
        }
    }
}

/// The ranked candidates for the directory `dir` listed by `es`.
pub open spec fn dos_detect_spec(dir: Seq<char>, es: Seq<ListedEntry>) -> Seq<CandView> {
    let ds = dir_stem(dir);
    let bats = bats_of(es);
    let exes = exes_of(es);
    let t1 = add_all(Seq::empty(), tier_bat_named(bats, ds));
    let t2 = add_all(t1, tier_bat_invoking(bats, exes));
    let t3 = add_all(t2, tier_exe_named(exes, ds));
    let t4 = add_all(t3, tier_bat_any(bats));
    let t5 = add_all(t4, tier_exe_sized(exes.sort_by(exe_order())));
    add_all(t5, tier_com(coms_of(es)))
}

fn eq_lit(v: &Vec<char>, lit: &str) -> (r: bool)
    ensures
        r == (v@ == lit@),
{
    let l = chars_of(lit);
    seq_eq(v.as_slice(), l.as_slice())
}

fn kind_of(e: &ListedEntry) -> (r: Option<EntryPointKind>)
    ensures
        r == dos_kind(*e),
{
    if !e.is_file {
        return None;
    }
    let name = chars_of(e.name.as_str());
    match rsplit_once_exec(name.as_slice(), '.') {
        None => None,
        Some((stem, ext)) => {
            let su = upper_vec(stem.as_slice());
            if eq_lit(&su, "INSTALL") || eq_lit(&su, "SETUP") || eq_lit(&su, "UNINSTAL") || eq_lit(
                &su,
                "UNINSTALL",
            ) {
                return None;
            }
            let eu = upper_vec(ext.as_slice());
            if eq_lit(&eu, "BAT") {
                Some(EntryPointKind::Bat)
            } else if eq_lit(&eu, "EXE") {
                Some(EntryPointKind::Exe)
            } else if eq_lit(&eu, "COM") {
                Some(EntryPointKind::Com)
            } else {
                None
            }
        },
    }
}

pub open spec fn bat_views(v: Seq<(String, Option<String>)>) -> Seq<(Seq<char>, Option<Seq<char>>)> {
    v.map_values(|b: (String, Option<String>)| (b.0@, text_view(b.1)))
}

fn clone_text(t: &Option<String>) -> (r: Option<String>)
    ensures
        text_view(r) == text_view(*t),
{
    match t {
        Some(s) => Some(s.clone()),
        None => None,
    }
}

/// Split the listing into batch files, executables and `.COM` programs.
fn categorize(entries: &Vec<ListedEntry>) -> (r: (
    Vec<(String, Option<String>)>,
    Vec<(String, u64)>,
    Vec<String>,
))
    ensures
        bat_views(r.0@) == bats_of(entries@),
        exe_views(r.1@) == exes_of(entries@),
        string_views(r.2@) == coms_of(entries@),
{
    let mut bats: Vec<(String, Option<String>)> = Vec::new();
    let mut exes: Vec<(String, u64)> = Vec::new();
    let mut coms: Vec<String> = Vec::new();
    let mut i: usize = 0;
    while i < entries.len()
        invariant
            i <= entries@.len(),
            bat_views(bats@) == bats_of(entries@.take(i as int)),
            exe_views(exes@) == exes_of(entries@.take(i as int)),
            string_views(coms@) == coms_of(entries@.take(i as int)),
        decreases entries@.len() - i,
    {
        let e = &entries[i];
        assert(entries@.take(i + 1).drop_last() =~= entries@.take(i as int));
        assert(entries@.take(i + 1).last() == *e);
        match kind_of(e) {
            Some(EntryPointKind::Bat) => {
                bats.push((e.name.clone(), clone_text(&e.text)));
            },
            Some(EntryPointKind::Exe) => {
                exes.push((e.name.clone(), e.size));
            },
            Some(EntryPointKind::Com) => {
                coms.push(e.name.clone());
            },
            None => {},
        }
        assert(bat_views(bats@) =~= bats_of(entries@.take(i + 1)));
        assert(exe_views(exes@) =~= exes_of(entries@.take(i + 1)));
        assert(string_views(coms@) =~= coms_of(entries@.take(i + 1)));
        i = i + 1;
    }
    assert(entries@.take(entries@.len() as int) =~= entries@);
    (bats, exes, coms)
}

fn stem_canonical_exec(s: &[char]) -> (r: Vec<char>)
    ensures
        r@ == stem_canonical(s@),
{
    let mut out: Vec<char> = Vec::new();
    let mut i: usize = 0;
    while i < s.len()
        invariant
            i <= s@.len(),
            out@ == stem_canonical(s@.take(i as int)),
        decreases s@.len() - i,
    {
        assert(s@.take(i + 1).drop_last() =~= s@.take(i as int));
        if is_alnum_exec(s[i]) {
            out.push(lower_char(s[i]));
        }
        i = i + 1;
    }
    assert(s@.take(s@.len() as int) =~= s@);
    out
}

fn file_stem_canonical_exec(name: &String) -> (r: Vec<char>)
    ensures
        r@ == file_stem_canonical(name@),
{
    let cs = chars_of(name.as_str());
    match rsplit_once_exec(cs.as_slice(), '.') {
        Some((stem, _)) => stem_canonical_exec(stem.as_slice()),
        None => stem_canonical_exec(cs.as_slice()),
    }
}

/// Appends `c` unless a candidate of that name is already present.
fn add_candidate(out: &mut Vec<EntryPointCandidate>, c: EntryPointCandidate)
    ensures
        cand_views(final(out)@) == if has_name(cand_views(old(out)@), c.file_name@) {
            cand_views(old(out)@)
        } else {
            cand_views(old(out)@).push(c.view())
        },
{
    let ghost before = cand_views(out@);
    let mut k: usize = 0;
    while k < out.len()
        invariant
            k <= out@.len(),
            before == cand_views(out@),
            forall|j: int| 0 <= j < k ==> (#[trigger] out@[j]).file_name@ != c.file_name@,
        decreases out@.len() - k,
    {
        if out[k].file_name == c.file_name {
            assert(cand_views(out@)[k as int].0 == c.file_name@);
            return;
        }
        k = k + 1;
    }
    assert(!has_name(before, c.file_name@)) by {
        assert forall|j: int| 0 <= j < before.len() implies (#[trigger] before[j]).0
            != c.file_name@ by {
            assert(before[j] == out@[j].view());
        }
    }
    out.push(c);
    assert(cand_views(out@) =~= before.push(c.view()));
}

proof fn lemma_add_all_push(acc: Seq<CandView>, t: Seq<CandView>, x: CandView)
    ensures
        add_all(acc, t.push(x)) == if has_name(add_all(acc, t), x.0) {
            add_all(acc, t)
        } else {
            add_all(acc, t).push(x)
        },
{
    assert(t.push(x).drop_last() =~= t);
}

fn make_candidate(name: &String, kind: EntryPointKind, reason: String) -> (r: EntryPointCandidate)
    ensures
        r.view() == (name@, kind, reason@),
{
    EntryPointCandidate { file_name: name.clone(), kind, reason }
}

/// Tier one: batch files named like the directory.
fn rank_bat_named(
    out: &mut Vec<EntryPointCandidate>,
    bats: &Vec<(String, Option<String>)>,
    ds: &Vec<char>,
)
    ensures
        cand_views(final(out)@) == add_all(
            cand_views(old(out)@),
            tier_bat_named(bat_views(bats@), ds@),
        ),
{
    let ghost start = cand_views(out@);
    let ghost bv = bat_views(bats@);
    let mut i: usize = 0;
    while i < bats.len()
        invariant
            i <= bats@.len(),
            bv == bat_views(bats@),
            cand_views(out@) == add_all(start, tier_bat_named(bv.take(i as int), ds@)),
        decreases bats@.len() - i,
    {
        assert(bv.take(i + 1).drop_last() =~= bv.take(i as int));
        let ghost t = tier_bat_named(bv.take(i as int), ds@);
        let stem = file_stem_canonical_exec(&bats[i].0);
        if ds.len() > 0 && seq_eq(stem.as_slice(), ds.as_slice()) {
            let c = make_candidate(&bats[i].0, EntryPointKind::Bat, owned("BAT script matching the directory name"));
            proof {
                lemma_add_all_push(start, t, c.view());
            }
            add_candidate(out, c);
        }
        i = i + 1;
    }
    assert(bv.take(bats@.len() as int) =~= bv);
}

fn upper_names_exec(exes: &Vec<(String, u64)>) -> (r: Vec<Vec<char>>)
    ensures
        views(r@) == upper_names(exe_views(exes@)),
{
    let ghost ev = exe_views(exes@);
    let mut r: Vec<Vec<char>> = Vec::new();
    let mut i: usize = 0;
    while i < exes.len()
        invariant
            i <= exes@.len(),
            ev == exe_views(exes@),
            views(r@) == upper_names(ev.take(i as int)),
        decreases exes@.len() - i,
    {
        assert(ev.take(i + 1).drop_last() =~= ev.take(i as int));
        let u = upper_vec(chars_of(exes[i].0.as_str()).as_slice());
        r.push(u);
        assert(views(r@) =~= upper_names(ev.take(i + 1)));
        i = i + 1;
    }
    assert(ev.take(exes@.len() as int) =~= ev);
    r
}

fn first_ref_exec(body: &Vec<char>, names: &Vec<Vec<char>>) -> (r: Option<usize>)
    ensures
        match r {
            Some(j) => j < names@.len() && first_ref(body@, views(names@)) == Some(names@[j as int]@),
            None => first_ref(body@, views(names@)) is None,
        },
{
    let ghost nv = views(names@);
    let mut j: usize = 0;
    assert(nv.skip(0) =~= nv);
    while j < names.len()
        invariant
            j <= names@.len(),
            nv == views(names@),
            first_ref(body@, nv) == first_ref(body@, nv.skip(j as int)),
        decreases names@.len() - j,
    {
        assert(nv.skip(j as int)[0] == names@[j as int]@);
        assert(nv.skip(j as int).drop_first() =~= nv.skip(j + 1));
        if contains_exec(body.as_slice(), names[j].as_slice()) {
            return Some(j);
        }
        j = j + 1;
    }
    None
}

/// Tier two: batch files whose text names one of the executables.
fn rank_bat_invoking(
    out: &mut Vec<EntryPointCandidate>,
    bats: &Vec<(String, Option<String>)>,
    exes: &Vec<(String, u64)>,
)
    ensures
        cand_views(final(out)@) == add_all(
            cand_views(old(out)@),
            tier_bat_invoking(bat_views(bats@), exe_views(exes@)),
        ),
{
    let ghost start = cand_views(out@);
    let ghost bv = bat_views(bats@);
    let names = upper_names_exec(exes);
    let mut i: usize = 0;
    while i < bats.len()
        invariant
            i <= bats@.len(),
            bv == bat_views(bats@),
            views(names@) == upper_names(exe_views(exes@)),
            cand_views(out@) == add_all(
                start,
                tier_bat_invoking(bv.take(i as int), exe_views(exes@)),
            ),
        decreases bats@.len() - i,
    {
        assert(bv.take(i + 1).drop_last() =~= bv.take(i as int));
        let ghost t = tier_bat_invoking(bv.take(i as int), exe_views(exes@));
        match &bats[i].1 {
            Some(text) => {
                let body = upper_vec(chars_of(text.as_str()).as_slice());
                match first_ref_exec(&body, &names) {
                    Some(j) => {
                        let mut reason = owned("BAT script invoking ");
                        let referenced = string_from(names[j].as_slice());
                        push_str(&mut reason, referenced.as_str());
                        let c = make_candidate(&bats[i].0, EntryPointKind::Bat, reason);
                        proof {
                            lemma_add_all_push(start, t, c.view());
                        }
                        add_candidate(out, c);
                    },
                    None => {},
                }
            },
            None => {},
        }
        i = i + 1;
    }
    assert(bv.take(bats@.len() as int) =~= bv);
}

/// Tier three: executables named like the directory.
fn rank_exe_named(out: &mut Vec<EntryPointCandidate>, exes: &Vec<(String, u64)>, ds: &Vec<char>)
    ensures
        cand_views(final(out)@) == add_all(
            cand_views(old(out)@),
            tier_exe_named(exe_views(exes@), ds@),
        ),
{
    let ghost start = cand_views(out@);
    let ghost ev = exe_views(exes@);
    let mut i: usize = 0;
    while i < exes.len()
        invariant
            i <= exes@.len(),
            ev == exe_views(exes@),
            cand_views(out@) == add_all(start, tier_exe_named(ev.take(i as int), ds@)),
        decreases exes@.len() - i,
    {
        assert(ev.take(i + 1).drop_last() =~= ev.take(i as int));
        let ghost t = tier_exe_named(ev.take(i as int), ds@);
        let stem = file_stem_canonical_exec(&exes[i].0);
        if ds.len() > 0 && seq_eq(stem.as_slice(), ds.as_slice()) {
            let c = make_candidate(&exes[i].0, EntryPointKind::Exe, owned("EXE matching the directory name"));
            proof {
                lemma_add_all_push(start, t, c.view());
            }
            add_candidate(out, c);
        }
        i = i + 1;
    }
    assert(ev.take(exes@.len() as int) =~= ev);
}

/// Tier four: every batch file.
fn rank_bat_any(out: &mut Vec<EntryPointCandidate>, bats: &Vec<(String, Option<String>)>)
    ensures
        cand_views(final(out)@) == add_all(cand_views(old(out)@), tier_bat_any(bat_views(bats@))),
{
    let ghost start = cand_views(out@);
    let ghost bv = bat_views(bats@);
    let mut i: usize = 0;
    while i < bats.len()
        invariant
            i <= bats@.len(),
            bv == bat_views(bats@),
            cand_views(out@) == add_all(start, tier_bat_any(bv.take(i as int))),
        decreases bats@.len() - i,
    {
        assert(bv.take(i + 1).drop_last() =~= bv.take(i as int));
        let ghost t = tier_bat_any(bv.take(i as int));
        let c = make_candidate(&bats[i].0, EntryPointKind::Bat, owned("BAT script (fallback)"));
        proof {
            lemma_add_all_push(start, t, c.view());
        }
        add_candidate(out, c);
        i = i + 1;
    }
    assert(bv.take(bats@.len() as int) =~= bv);
}

fn size_reason_exec(size: u64) -> (r: String)
    ensures
        r@ == size_reason(size),
{
    let mut s = owned("EXE (");
    push_decimal(&mut s, size);
    push_str(&mut s, " bytes)");
    s
}

/// Tier five: the executables in the order given.
fn rank_exe_sized(out: &mut Vec<EntryPointCandidate>, sorted: &Vec<(String, u64)>)
    ensures
        cand_views(final(out)@) == add_all(
            cand_views(old(out)@),
            tier_exe_sized(exe_views(sorted@)),
        ),
{
    let ghost start = cand_views(out@);
    let ghost ev = exe_views(sorted@);
    let mut i: usize = 0;
    while i < sorted.len()
        invariant
            i <= sorted@.len(),
            ev == exe_views(sorted@),
            cand_views(out@) == add_all(start, tier_exe_sized(ev.take(i as int))),
        decreases sorted@.len() - i,
    {
        assert(ev.take(i + 1).drop_last() =~= ev.take(i as int));
        let ghost t = tier_exe_sized(ev.take(i as int));
        let c = make_candidate(&sorted[i].0, EntryPointKind::Exe, size_reason_exec(sorted[i].1));
        proof {
            lemma_add_all_push(start, t, c.view());
        }
        add_candidate(out, c);
        i = i + 1;
    }
    assert(ev.take(sorted@.len() as int) =~= ev);
}

/// Tier six: the `.COM` programs.
fn rank_com(out: &mut Vec<EntryPointCandidate>, coms: &Vec<String>)
    ensures
        cand_views(final(out)@) == add_all(cand_views(old(out)@), tier_com(string_views(coms@))),
{
    let ghost start = cand_views(out@);
    let ghost cv = string_views(coms@);
    let mut i: usize = 0;
    while i < coms.len()
        invariant
            i <= coms@.len(),
            cv == string_views(coms@),
            cand_views(out@) == add_all(start, tier_com(cv.take(i as int))),
        decreases coms@.len() - i,
    {
        assert(cv.take(i + 1).drop_last() =~= cv.take(i as int));
        let ghost t = tier_com(cv.take(i as int));
        let c = make_candidate(&coms[i], EntryPointKind::Com, owned("COM executable"));
        proof {
            lemma_add_all_push(start, t, c.view());
        }
        add_candidate(out, c);
        i = i + 1;
    }
    assert(cv.take(coms@.len() as int) =~= cv);
}

/// Is `name` a batch file by its extension? The ranking reads the text of
/// these files, so a caller listing a directory reads them for it.
pub fn is_batch_name(name: &str) -> (r: bool)
    ensures
        r == match rsplit_once(name@, '.') {
            Some(parts) => upper_seq(parts.1) == "BAT"@,
            None => false,
        },
{
    let cs = chars_of(name);
    match rsplit_once_exec(cs.as_slice(), '.') {
        Some((_, ext)) => {
            let eu = upper_vec(ext.as_slice());
            eq_lit(&eu, "BAT")
        },
        None => false,
    }
}

/// Entry-point candidates for the directory `dir` listed by `entries`, in
/// descending rank: batch files named like the directory, batch files that
/// invoke a listed executable, executables named like the directory, the
/// other batch files, the other executables largest first, then `.COM`
/// programs. Each file appears once, at its best rank; setup programs are
/// left out. Empty when nothing plausible was found.
pub fn detect(dir: &str, entries: &Vec<ListedEntry>) -> (r: Vec<EntryPointCandidate>)
    requires
        crate::heuristic::listing_sorted(entries@),
    ensures
        cand_views(r@) == dos_detect_spec(dir@, entries@),
{
    let ds: Vec<char> = match file_name(dir) {
        Some(n) => stem_canonical_exec(chars_of(n.as_str()).as_slice()),
        None => Vec::new(),
    };
    assert(ds@ == dir_stem(dir@));
    let (bats, exes, coms) = categorize(entries);
    let mut out: Vec<EntryPointCandidate> = Vec::new();
    assert(cand_views(out@) =~= Seq::<CandView>::empty());
    rank_bat_named(&mut out, &bats, &ds);
    rank_bat_invoking(&mut out, &bats, &exes);
    rank_exe_named(&mut out, &exes, &ds);
    rank_bat_any(&mut out, &bats);
    let sorted = sort_exes(&exes);
    rank_exe_sized(&mut out, &sorted);
    rank_com(&mut out, &coms);
    out
}

} // verus!

verus! {

/// What [`add_all`] makes of `acc`: `acc` stays in front, and everything
/// after it comes from `s`.
proof fn lemma_add_all_shape(acc: Seq<CandView>, s: Seq<CandView>)
    ensures
        acc.len() <= add_all(acc, s).len(),
        forall|k: int| 0 <= k < acc.len() ==> #[trigger] add_all(acc, s)[k] == acc[k],
        forall|k: int| acc.len() <= k < add_all(acc, s).len() ==> s.contains(#[trigger] add_all(acc, s)[k]),
    decreases s.len(),
{
    if s.len() > 0 {
        lemma_add_all_shape(acc, s.drop_last());
        let a = add_all(acc, s.drop_last());
        assert forall|k: int| acc.len() <= k < add_all(acc, s).len() implies s.contains(#[trigger] add_all(acc, s)[k]) by {
            if k < a.len() {
                assert(s.drop_last().contains(a[k]));
                let m = choose|m: int| 0 <= m < s.drop_last().len() && s.drop_last()[m] == a[k];
                assert(s[m] == a[k]);
            } else {
                assert(add_all(acc, s)[k] == s.last());
                assert(s[s.len() - 1] == s.last());
            }
        }
    }
}

proof fn lemma_tier_bat_named_reasons(bats: Seq<(Seq<char>, Option<Seq<char>>)>, ds: Seq<char>)
    ensures
        forall|k: int| 0 <= k < tier_bat_named(bats, ds).len() ==> (#[trigger] tier_bat_named(bats, ds)[k]).2
            == "BAT script matching the directory name"@,
    decreases bats.len(),
{
    if bats.len() > 0 {
        lemma_tier_bat_named_reasons(bats.drop_last(), ds);
        let prev = tier_bat_named(bats.drop_last(), ds);
        let cur = tier_bat_named(bats, ds);
        assert forall|k: int| 0 <= k < cur.len() implies (#[trigger] cur[k]).2
            == "BAT script matching the directory name"@ by {
            if k < prev.len() {
                assert(cur[k] == prev[k]);
            }
        }
    }
}

proof fn lemma_tier_bat_invoking_reasons(bats: Seq<(Seq<char>, Option<Seq<char>>)>, exes: Seq<(Seq<char>, u64)>)
    ensures
        forall|k: int| 0 <= k < tier_bat_invoking(bats, exes).len() ==> {
            let r = (#[trigger] tier_bat_invoking(bats, exes)[k]).2;
            r.len() >= 20 && r.take(20) == "BAT script invoking "@
        },
    decreases bats.len(),
{
    reveal_strlit("BAT script invoking ");
    if bats.len() > 0 {
        lemma_tier_bat_invoking_reasons(bats.drop_last(), exes);
        let prev = tier_bat_invoking(bats.drop_last(), exes);
        let cur = tier_bat_invoking(bats, exes);
        assert forall|k: int| 0 <= k < cur.len() implies {
            let r = (#[trigger] cur[k]).2;
            r.len() >= 20 && r.take(20) == "BAT script invoking "@
        } by {
            if k < prev.len() {
                assert(cur[k] == prev[k]);
            } else {
                let x = referenced_exe(bats.last().1, exes).unwrap();
                assert(cur[k].2 == "BAT script invoking "@ + x);
                assert(("BAT script invoking "@ + x).take(20) =~= "BAT script invoking "@);
            }
        }
    }
}

proof fn lemma_tier_exe_named_reasons(exes: Seq<(Seq<char>, u64)>, ds: Seq<char>)
    ensures
        forall|k: int| 0 <= k < tier_exe_named(exes, ds).len() ==> (#[trigger] tier_exe_named(exes, ds)[k]).2
            == "EXE matching the directory name"@,
    decreases exes.len(),
{
    if exes.len() > 0 {
        lemma_tier_exe_named_reasons(exes.drop_last(), ds);
        let prev = tier_exe_named(exes.drop_last(), ds);
        let cur = tier_exe_named(exes, ds);
        assert forall|k: int| 0 <= k < cur.len() implies (#[trigger] cur[k]).2
            == "EXE matching the directory name"@ by {
            if k < prev.len() {
                assert(cur[k] == prev[k]);
            }
        }
    }
}

proof fn lemma_tier_bat_any_reasons(bats: Seq<(Seq<char>, Option<Seq<char>>)>)
    ensures
        forall|k: int| 0 <= k < tier_bat_any(bats).len() ==> (#[trigger] tier_bat_any(bats)[k]).2
            == "BAT script (fallback)"@,
    decreases bats.len(),
{
    if bats.len() > 0 {
        lemma_tier_bat_any_reasons(bats.drop_last());
        let prev = tier_bat_any(bats.drop_last());
        let cur = tier_bat_any(bats);
        assert forall|k: int| 0 <= k < cur.len() implies (#[trigger] cur[k]).2 == "BAT script (fallback)"@ by {
            if k < prev.len() {
                assert(cur[k] == prev[k]);
            }
        }
    }
}

proof fn lemma_tier_exe_sized_reasons(sorted: Seq<(Seq<char>, u64)>)
    ensures
        forall|k: int| 0 <= k < tier_exe_sized(sorted).len() ==> {
            let r = (#[trigger] tier_exe_sized(sorted)[k]).2;
            r.len() >= 5 && r.take(5) == "EXE ("@
        },
    decreases sorted.len(),
{
    reveal_strlit("EXE (");
    reveal_strlit(" bytes)");
    if sorted.len() > 0 {
        lemma_tier_exe_sized_reasons(sorted.drop_last());
        let r = size_reason(sorted.last().1);
        assert(r.take(5) =~= "EXE ("@);
        let prev = tier_exe_sized(sorted.drop_last());
        let cur = tier_exe_sized(sorted);
        assert forall|k: int| 0 <= k < cur.len() implies {
            let r = (#[trigger] cur[k]).2;
            r.len() >= 5 && r.take(5) == "EXE ("@
        } by {
            if k < prev.len() {
                assert(cur[k] == prev[k]);
            }
        }
    }
}

proof fn lemma_tier_com_reasons(coms: Seq<Seq<char>>)
    ensures
        forall|k: int| 0 <= k < tier_com(coms).len() ==> (#[trigger] tier_com(coms)[k]).2 == "COM executable"@,
    decreases coms.len(),
{
    if coms.len() > 0 {
        lemma_tier_com_reasons(coms.drop_last());
        let prev = tier_com(coms.drop_last());
        let cur = tier_com(coms);
        assert forall|k: int| 0 <= k < cur.len() implies (#[trigger] cur[k]).2 == "COM executable"@ by {
            if k < prev.len() {
                assert(cur[k] == prev[k]);
            }
        }
    }
}

/// An executable named like the directory always outranks a fallback
/// batch file: in the ranking, no candidate offered as "BAT script
/// (fallback)" comes before one offered as "EXE matching the directory
/// name".
pub proof fn lemma_named_exe_before_fallback_bat(dir: Seq<char>, es: Seq<ListedEntry>)
    ensures
        forall|i: int, j: int|
            0 <= i < j < dos_detect_spec(dir, es).len() ==> !((#[trigger] dos_detect_spec(dir, es)[i]).2
                == "BAT script (fallback)"@ && (#[trigger] dos_detect_spec(dir, es)[j]).2
                == "EXE matching the directory name"@),
{
    let fallback = "BAT script (fallback)"@;
    let named = "EXE matching the directory name"@;
    reveal_strlit("BAT script (fallback)");
    reveal_strlit("EXE matching the directory name");
    reveal_strlit("BAT script matching the directory name");
    reveal_strlit("BAT script invoking ");
    reveal_strlit("EXE (");
    reveal_strlit("COM executable");
    let ds = dir_stem(dir);
    let bats = bats_of(es);
    let exes = exes_of(es);
    let s1 = tier_bat_named(bats, ds);
    let s2 = tier_bat_invoking(bats, exes);
    let s3 = tier_exe_named(exes, ds);
    let s4 = tier_bat_any(bats);
    let s5 = tier_exe_sized(exes.sort_by(exe_order()));
    let s6 = tier_com(coms_of(es));
    let t1 = add_all(Seq::empty(), s1);
    let t2 = add_all(t1, s2);
    let t3 = add_all(t2, s3);
    let t4 = add_all(t3, s4);
    let t5 = add_all(t4, s5);
    let r = add_all(t5, s6);
    assert(r == dos_detect_spec(dir, es));
    lemma_add_all_shape(Seq::empty(), s1);
    lemma_add_all_shape(t1, s2);
    lemma_add_all_shape(t2, s3);
    lemma_add_all_shape(t3, s4);
    lemma_add_all_shape(t4, s5);
    lemma_add_all_shape(t5, s6);
    lemma_tier_bat_named_reasons(bats, ds);
    lemma_tier_bat_invoking_reasons(bats, exes);
    lemma_tier_exe_named_reasons(exes, ds);
    lemma_tier_bat_any_reasons(bats);
    lemma_tier_exe_sized_reasons(exes.sort_by(exe_order()));
    lemma_tier_com_reasons(coms_of(es));
    // Within the first three tiers no reason is the fallback one.
    assert forall|k: int| 0 <= k < t3.len() implies (#[trigger] t3[k]).2 != fallback by {
        if k < t2.len() {
            if k < t1.len() {
                let m = choose|m: int| 0 <= m < s1.len() && s1[m] == t1[k];
                assert(s1[m].2[11] != fallback[11]);
            } else {
                let m = choose|m: int| 0 <= m < s2.len() && s2[m] == t2[k];
                assert(s2[m].2.take(20)[11] != fallback[11]);
            }
        } else {
            let m = choose|m: int| 0 <= m < s3.len() && s3[m] == t3[k];
            assert(s3[m].2[0] != fallback[0]);
        }
    }
    // After them no reason is the named-executable one.
    assert forall|k: int| t3.len() <= k < r.len() implies (#[trigger] r[k]).2 != named by {
        if k < t5.len() {
            if k < t4.len() {
                let m = choose|m: int| 0 <= m < s4.len() && s4[m] == t4[k];
                assert(s4[m].2[0] != named[0]);
            } else {
                let m = choose|m: int| 0 <= m < s5.len() && s5[m] == t5[k];
                assert(s5[m].2.take(5)[4] != named[4]);
            }
        } else {
            let m = choose|m: int| 0 <= m < s6.len() && s6[m] == r[k];
            assert(s6[m].2[0] != named[0]);
        }
    }
    assert forall|i: int, j: int| 0 <= i < j < r.len() implies !((#[trigger] r[i]).2 == fallback && (#[trigger] r[j]).2
        == named) by {
        if r[j].2 == named {
            assert(j < t3.len());
            assert(r[i] == t3[i]);
        }
    }
}

} // verus!
