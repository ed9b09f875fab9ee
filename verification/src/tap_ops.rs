//! Subscribing to, unsubscribing from and syncing taps: the changes to
//! the subscription manifest and the lines reported. Cloning, moving
//! caches and writing files are the program's work.

use vstd::prelude::*;
use crate::catalog_view::{derefs, lemma_derefs_push, lemma_filter_step};
use crate::install_record::LoadedInstallRecord;
use crate::catalog::valid_id;
use crate::known_taps::{is_known_tap, known_tap_url};
use crate::listing::{distinct, distinct_exec};
use crate::order::{name_order, sort_names};
use crate::subscriptions::{has_id, priorities_unique, taps_ok, SubscriptionManifest, TapSubscription};
use crate::tap_fetch::PullResult;
use crate::text::{chars_of, join_sep, join_strings, owned, push_str, str_eq, string_from, string_views};

verus! {

/// Add a subscription for a freshly cloned tap: refused (`None`) when one
/// with its id exists; otherwise it gets `priority`, or one past the
/// highest in use, and that priority is returned.
pub fn subscribe(
    manifest: &mut SubscriptionManifest,
    id: String,
    source: String,
    added_at: String,
    priority: Option<u32>,
) -> (r: Option<u32>)
    requires
        priority is None ==> forall|i: int| 0 <= i < old(manifest).taps@.len() ==> #[trigger] old(
            manifest,
        ).taps@[i].priority < u32::MAX,
    ensures
        final(manifest).schema_version == old(manifest).schema_version,
        has_id(old(manifest).taps@, id@) ==> r is None && final(manifest).taps@ == old(manifest).taps@,
        !has_id(old(manifest).taps@, id@) ==> (r matches Some(p) && final(manifest).taps@ == old(manifest).taps@.push(
            TapSubscription { id, source, added_at, priority: p },
        ) && match priority {
            Some(q) => p == q,
            None => (old(manifest).taps@.len() == 0 ==> p == 0) && (old(manifest).taps@.len() > 0 ==> (exists|i: int|
                0 <= i < old(manifest).taps@.len() && p == #[trigger] old(manifest).taps@[i].priority + 1) && forall|i: int|
                0 <= i < old(manifest).taps@.len() ==> #[trigger] old(manifest).taps@[i].priority < p),
        }),
{
    let mut i: usize = 0;
    while i < manifest.taps.len()
        invariant
            i <= manifest.taps@.len(),
            *manifest == *old(manifest),
            forall|k: int| 0 <= k < i ==> (#[trigger] manifest.taps@[k]).id@ != id@,
        decreases manifest.taps@.len() - i,
    {
        if str_eq(manifest.taps[i].id.as_str(), id.as_str()) {
            return None;
        }
        i = i + 1;
    }
    let p = match priority {
        Some(q) => q,
        None => manifest.next_priority(),
    };
    manifest.taps.push(TapSubscription { id, source, added_at, priority: p });
    Some(p)
}

#[derive(Debug)]
pub enum UnsubscribeError {
    LocalTap,
    NotSubscribed(String),
}

pub open spec fn other_than(id: Seq<char>) -> spec_fn(TapSubscription) -> bool {
    |t: TapSubscription| t.id@ != id
}

/// Drop the subscription `id`; the built-in `local` tap and unknown ids
/// are refused.
pub fn unsubscribe(manifest: &mut SubscriptionManifest, id: &str) -> (r: Result<(), UnsubscribeError>)
    ensures
        final(manifest).schema_version == old(manifest).schema_version,
        id@ == "local"@ ==> (r matches Err(UnsubscribeError::LocalTap) && final(manifest).taps@ == old(manifest).taps@),
        id@ != "local"@ && !has_id(old(manifest).taps@, id@) ==> (r matches Err(UnsubscribeError::NotSubscribed(x))
            && x@ == id@ && final(manifest).taps@ == old(manifest).taps@),
        id@ != "local"@ && has_id(old(manifest).taps@, id@) ==> r is Ok && final(manifest).taps@ == old(
            manifest,
        ).taps@.filter(other_than(id@)),
{
    if str_eq(id, "local") {
        return Err(UnsubscribeError::LocalTap);
    }
    let mut found = false;
    let mut i: usize = 0;
    while i < manifest.taps.len()
        invariant
            i <= manifest.taps@.len(),
            *manifest == *old(manifest),
            found == exists|k: int| 0 <= k < i && (#[trigger] manifest.taps@[k]).id@ == id@,
        decreases manifest.taps@.len() - i,
    {
        if str_eq(manifest.taps[i].id.as_str(), id) {
            found = true;
        }
        i = i + 1;
    }
    if !found {
        return Err(UnsubscribeError::NotSubscribed(owned(id)));
    }
    let ghost orig = manifest.taps@;
    let n = manifest.taps.len();
    let mut old_taps = Vec::new();
    std::mem::swap(&mut old_taps, &mut manifest.taps);
    let mut kept: Vec<TapSubscription> = Vec::new();
    let mut k: usize = 0;
    assert(old_taps@.skip(0) =~= orig);
    while old_taps.len() > 0
        invariant
            n == orig.len(),
            k + old_taps@.len() == n,
            old_taps@ == orig.skip(k as int),
            kept@ == orig.take(k as int).filter(other_than(id@)),
        decreases old_taps@.len(),
    {
        proof {
            lemma_filter_step(orig, k as int, other_than(id@));
        }
        let t = old_taps.remove(0);
        assert(t == orig[k as int]);
        assert(old_taps@ =~= orig.skip(k + 1));
        if !str_eq(t.id.as_str(), id) {
            kept.push(t);
        }
        k = n - old_taps.len();
    }
    assert(orig.take(n as int) =~= orig);
    manifest.taps = kept;
    Ok(())
}

pub open spec fn for_tap(tap: Seq<char>) -> spec_fn(LoadedInstallRecord) -> bool {
    |r: LoadedInstallRecord| r.record.install.tap@ == tap
}

pub open spec fn record_ids(v: Seq<LoadedInstallRecord>) -> Seq<Seq<char>> {
    v.map_values(|x: LoadedInstallRecord| x.record.install.catalog_id@)
}

proof fn lemma_record_ids_push(v: Seq<LoadedInstallRecord>, x: LoadedInstallRecord)
    ensures
        record_ids(v.push(x)) == record_ids(v).push(x.record.install.catalog_id@),
{
    assert(record_ids(v.push(x)) =~= record_ids(v).push(x.record.install.catalog_id@));
}

/// The catalog ids of the install records that point at tap `tap`, in
/// order: what removing the tap would orphan.
pub fn records_for_tap(records: &Vec<LoadedInstallRecord>, tap: &str) -> (r: Vec<String>)
    ensures
        string_views(r@) == record_ids(records@.filter(for_tap(tap@))),
{
    let ghost s = records@;
    let mut r: Vec<String> = Vec::new();
    let mut i: usize = 0;
    while i < records.len()
        invariant
            i <= s.len(),
            s == records@,
            string_views(r@) == record_ids(s.take(i as int).filter(for_tap(tap@))),
        decreases s.len() - i,
    {
        proof {
            lemma_filter_step(s, i as int, for_tap(tap@));
        }
        if str_eq(records[i].record.install.tap.as_str(), tap) {
            let ghost before = r@;
            proof {
                lemma_record_ids_push(s.take(i as int).filter(for_tap(tap@)), s[i as int]);
            }
            r.push(records[i].record.install.catalog_id.clone());
            assert(string_views(r@) =~= string_views(before).push(s[i as int].record.install.catalog_id@));
        }
        i = i + 1;
    }
    assert(s.take(s.len() as int) =~= s);
    r
}

pub open spec fn sync_pred(id: Option<Seq<char>>) -> spec_fn(TapSubscription) -> bool {
    |t: TapSubscription| match id {
        Some(n) => t.id@ == n,
        None => true,
    }
}

pub open spec fn opt_seq(o: Option<&str>) -> Option<Seq<char>> {
    match o {
        Some(s) => Some(s@),
        None => None,
    }
}

/// The subscriptions a sync covers: the one named, or all.
pub fn taps_to_sync<'a>(manifest: &'a SubscriptionManifest, id: Option<&str>) -> (r: Vec<&'a TapSubscription>)
    ensures
        derefs(r@) == manifest.taps@.filter(sync_pred(opt_seq(id))),
{
    let ghost s = manifest.taps@;
    let ghost p = sync_pred(opt_seq(id));
    let mut r: Vec<&TapSubscription> = Vec::new();
    let mut i: usize = 0;
    while i < manifest.taps.len()
        invariant
            i <= s.len(),
            s == manifest.taps@,
            p == sync_pred(opt_seq(id)),
            derefs(r@) == s.take(i as int).filter(p),
        decreases s.len() - i,
    {
        proof {
            lemma_filter_step(s, i as int, p);
        }
        let t = &manifest.taps[i];
        let keep = match id {
            Some(n) => str_eq(t.id.as_str(), n),
            None => true,
        };
        if keep {
            proof {
                lemma_derefs_push(r@, t);
            }
            r.push(t);
        }
        i = i + 1;
    }
    assert(s.take(s.len() as int) =~= s);
    r
}

/// The first seven characters of a commit hash (all of a shorter one).
pub open spec fn short_hash_spec(h: Seq<char>) -> Seq<char> {
    if h.len() <= 7 {
        h
    } else {
        h.take(7)
    }
}

pub fn short_hash(h: &str) -> (r: String)
    ensures
        r@ == short_hash_spec(h@),
{
    let cs = chars_of(h);
    if cs.len() <= 7 {
        return owned(h);
    }
    let t = crate::text::slice_vec(cs.as_slice(), 0, 7);
    assert(t@ =~= h@.take(7));
    string_from(t.as_slice())
}

/// What a sync reports for a pulled tap: `<id>: up to date`, or
/// `<id>: updated <before> -> <after>` with short hashes.
pub fn sync_summary(id: &str, pull: &PullResult) -> (r: String)
    ensures
        r@ == if pull.already_up_to_date {
            id@ + ": up to date"@
        } else {
            id@ + ": updated "@ + short_hash_spec(pull.before_hash@) + " -> "@ + short_hash_spec(pull.after_hash@)
        },
{
    let mut r = owned(id);
    if pull.already_up_to_date {
        push_str(&mut r, ": up to date");
    } else {
        push_str(&mut r, ": updated ");
        push_str(&mut r, short_hash(pull.before_hash.as_str()).as_str());
        push_str(&mut r, " -> ");
        push_str(&mut r, short_hash(pull.after_hash.as_str()).as_str());
    }
    r
}

/// The outcome of a sync of several taps: the report lines, or, when any
/// tap failed, all of them as one message.
pub fn sync_outcome(messages: Vec<String>, had_error: bool) -> (r: Result<Vec<String>, String>)
    ensures
        had_error ==> (r matches Err(m) && m@ == join_sep(string_views(messages@), "\n"@)),
        !had_error ==> (r matches Ok(v) && v@ == messages@),
{
    if had_error {
        Err(join_strings(&messages, "\n"))
    } else {
        Ok(messages)
    }
}


/// Unsubscribing keeps the subscriptions well-formed, and their priorities
/// distinct when they were: it only drops taps.
pub proof fn lemma_unsubscribe_keeps_invariants(taps: Seq<TapSubscription>, id: Seq<char>)
    requires
        taps_ok(taps),
    ensures
        taps_ok(taps.filter(other_than(id))),
        priorities_unique(taps) ==> priorities_unique(taps.filter(other_than(id))),
{
    lemma_filter_prefix(taps, id, taps.len() as int);
    assert(taps.take(taps.len() as int) =~= taps);
}

proof fn lemma_filter_prefix(taps: Seq<TapSubscription>, id: Seq<char>, k: int)
    requires
        taps_ok(taps),
        0 <= k <= taps.len(),
    ensures
        taps_ok(taps.take(k).filter(other_than(id))),
        priorities_unique(taps) ==> priorities_unique(taps.take(k).filter(other_than(id))),
        forall|x: TapSubscription| #[trigger] taps.take(k).filter(other_than(id)).contains(x)
            ==> exists|i: int| 0 <= i < k && taps[i] == x,
    decreases k,
{
    let p = other_than(id);
    if k == 0 {
        assert(taps.take(0) =~= Seq::<TapSubscription>::empty());
        assert(taps.take(0).filter(p) =~= Seq::<TapSubscription>::empty());
    } else {
        lemma_filter_prefix(taps, id, k - 1);
        lemma_filter_step(taps, k - 1, p);
        let before = taps.take(k - 1).filter(p);
        let now = taps.take(k).filter(p);
        let x = taps[k - 1];
        if p(x) {
            assert(now == before.push(x));
            assert forall|a: int| 0 <= a < before.len() implies #[trigger] before[a] != x && before[a].id@ != x.id@
                && (priorities_unique(taps) ==> before[a].priority != x.priority) by {
                assert(before.contains(before[a]));
                let i = choose|i: int| 0 <= i < k - 1 && taps[i] == before[a];
                assert(taps[i].id@ != taps[k - 1].id@);
            }
            assert forall|y: TapSubscription| #[trigger] now.contains(y) implies exists|i: int| 0 <= i < k && taps[i] == y by {
                let a = choose|a: int| 0 <= a < now.len() && now[a] == y;
                if a < before.len() {
                    assert(before[a] == y);
                    assert(before.contains(y));
                } else {
                    assert(taps[k - 1] == y);
                }
            }
            assert forall|a: int, b: int| 0 <= a < b < now.len() implies #[trigger] now[a].id@ != #[trigger] now[b].id@ by {
                if b < before.len() {
                    assert(now[a] == before[a] && now[b] == before[b]);
                } else {
                    assert(now[a] == before[a]);
                }
            }
            assert forall|i: int| 0 <= i < now.len() implies (#[trigger] now[i]).id@ != "local"@ && valid_id(now[i].id@) by {
                if i < before.len() {
                    assert(now[i] == before[i]);
                } else {
                    assert(now[i] == taps[k - 1]);
                }
            }
            if priorities_unique(taps) {
                assert forall|a: int, b: int| 0 <= a < b < now.len() implies #[trigger] now[a].priority
                    != #[trigger] now[b].priority by {
                    if b < before.len() {
                        assert(now[a] == before[a] && now[b] == before[b]);
                    } else {
                        assert(now[a] == before[a]);
                    }
                }
            }
        } else {
            assert(now == before);
            assert forall|y: TapSubscription| #[trigger] now.contains(y) implies exists|i: int| 0 <= i < k && taps[i] == y by {
                assert(before.contains(y));
            }
        }
    }
}

/// Subscribing to a tap with a well-formed id other than `local` keeps the
/// subscriptions well-formed: [`subscribe`] only adds an id it does not
/// hold yet.
pub proof fn lemma_subscribe_keeps_invariants(taps: Seq<TapSubscription>, t: TapSubscription)
    requires
        taps_ok(taps),
        !has_id(taps, t.id@),
        t.id@ != "local"@,
        valid_id(t.id@),
    ensures
        taps_ok(taps.push(t)),
        priorities_unique(taps) && (forall|i: int| 0 <= i < taps.len() ==> #[trigger] taps[i].priority != t.priority)
            ==> priorities_unique(taps.push(t)),
{
    let s = taps.push(t);
    assert forall|a: int, b: int| 0 <= a < b < s.len() implies #[trigger] s[a].id@ != #[trigger] s[b].id@ by {
        if b == taps.len() {
            assert(s[a] == taps[a]);
        } else {
            assert(s[a] == taps[a] && s[b] == taps[b]);
        }
    }
    assert forall|i: int| 0 <= i < s.len() implies (#[trigger] s[i]).id@ != "local"@ && valid_id(s[i].id@) by {
        if i < taps.len() {
            assert(s[i] == taps[i]);
        }
    }
    if priorities_unique(taps) && (forall|i: int| 0 <= i < taps.len() ==> #[trigger] taps[i].priority != t.priority) {
        assert forall|a: int, b: int| 0 <= a < b < s.len() implies #[trigger] s[a].priority != #[trigger] s[b].priority by {
            if b == taps.len() {
                assert(s[a] == taps[a]);
            } else {
                assert(s[a] == taps[a] && s[b] == taps[b]);
            }
        }
    }
}


/// The taps the install records point at, record by record.
pub open spec fn record_taps(v: Seq<LoadedInstallRecord>) -> Seq<Seq<char>> {
    v.map_values(|x: LoadedInstallRecord| x.record.install.tap@)
}

/// A known tap the manifest does not subscribe to.
pub open spec fn unsubscribed_known(taps: Seq<TapSubscription>) -> spec_fn(Seq<char>) -> bool {
    |t: Seq<char>| known_tap_url(t) is Some && !has_id(taps, t)
}

/// The known taps that install records point at but nothing subscribes to,
/// each once, in `str` order.
pub open spec fn upgrade_taps(records: Seq<LoadedInstallRecord>, taps: Seq<TapSubscription>) -> Seq<Seq<char>> {
    distinct(record_taps(records), records.len() as int).filter(unsubscribed_known(taps)).sort_by(name_order())
}

fn subscribed(taps: &Vec<TapSubscription>, id: &str) -> (r: bool)
    ensures
        r == has_id(taps@, id@),
{
    let mut i: usize = 0;
    while i < taps.len()
        invariant
            i <= taps@.len(),
            forall|k: int| 0 <= k < i ==> (#[trigger] taps@[k]).id@ != id@,
        decreases taps@.len() - i,
    {
        if str_eq(taps[i].id.as_str(), id) {
            return true;
        }
        i = i + 1;
    }
    false
}

/// What an upgrade check reports: each known tap that install records point
/// at but the manifest does not subscribe to, in `str` order, with the
/// number of records pointing at it.
pub fn upgrade_candidates(records: &Vec<LoadedInstallRecord>, manifest: &SubscriptionManifest) -> (r: Vec<(String, usize)>)
    ensures
        r@.len() == upgrade_taps(records@, manifest.taps@).len(),
        forall|q: int| 0 <= q < r@.len() ==> (#[trigger] r@[q]).0@ == upgrade_taps(records@, manifest.taps@)[q]
            && r@[q].1 == records@.filter(for_tap(upgrade_taps(records@, manifest.taps@)[q])).len(),
{
    let ghost rt = record_taps(records@);
    let mut all: Vec<String> = Vec::new();
    let mut i: usize = 0;
    while i < records.len()
        invariant
            i <= records@.len(),
            rt == record_taps(records@),
            string_views(all@) == rt.take(i as int),
        decreases records@.len() - i,
    {
        let ghost before = all@;
        all.push(records[i].record.install.tap.clone());
        assert(string_views(all@) =~= string_views(before).push(rt[i as int]));
        assert(rt.take(i + 1) =~= rt.take(i as int).push(rt[i as int]));
        i = i + 1;
    }
    assert(rt.take(records@.len() as int) =~= rt);
    let d = distinct_exec(&all);
    let ghost dv = string_views(d@);
    let pred = Ghost(unsubscribed_known(manifest.taps@));
    let mut missing: Vec<String> = Vec::new();
    let mut k: usize = 0;
    while k < d.len()
        invariant
            k <= d@.len(),
            dv == string_views(d@),
            dv == distinct(rt, records@.len() as int),
            pred@ == unsubscribed_known(manifest.taps@),
            string_views(missing@) == dv.take(k as int).filter(pred@),
        decreases d@.len() - k,
    {
        proof {
            lemma_filter_step(dv, k as int, pred@);
        }
        assert(dv[k as int] == d@[k as int]@);
        if is_known_tap(d[k].as_str()) && !subscribed(&manifest.taps, d[k].as_str()) {
            let ghost before = missing@;
            missing.push(d[k].clone());
            assert(string_views(missing@) =~= string_views(before).push(dv[k as int]));
        }
        k = k + 1;
    }
    assert(dv.take(d@.len() as int) =~= dv);
    let sorted = sort_names(&missing);
    let ghost want = upgrade_taps(records@, manifest.taps@);
    assert(string_views(sorted@) == want);
    let mut out: Vec<(String, usize)> = Vec::new();
    let mut q: usize = 0;
    while q < sorted.len()
        invariant
            q <= sorted@.len(),
            string_views(sorted@) == want,
            want == upgrade_taps(records@, manifest.taps@),
            out@.len() == q,
            forall|w: int| 0 <= w < q ==> (#[trigger] out@[w]).0@ == want[w]
                && out@[w].1 == records@.filter(for_tap(want[w])).len(),
        decreases sorted@.len() - q,
    {
        assert(string_views(sorted@)[q as int] == sorted@[q as int]@);
        let ids = records_for_tap(records, sorted[q].as_str());
        assert(string_views(ids@).len() == ids@.len());
        assert(record_ids(records@.filter(for_tap(want[q as int]))).len() == records@.filter(for_tap(want[q as int])).len());
        out.push((sorted[q].clone(), ids.len()));
        q = q + 1;
    }
    out
}


/// The status a tap listing shows for a subscribed tap: `missing cache`
/// without its checkout; when the remote was asked (`heads` holds the local
/// and the remote head, each when it could be read), `up to date` or
/// `out of date` if both are known, else `unknown`; otherwise `ok`.
pub fn tap_status(cache_ok: bool, heads: Option<(Option<String>, Option<String>)>) -> (r: &'static str)
    ensures
        r@ == if !cache_ok {
            "missing cache"@
        } else {
            match heads {
                None => "ok"@,
                Some((Some(l), Some(h))) => if l@ == h@ {
                    "up to date"@
                } else {
                    "out of date"@
                },
                Some(_) => "unknown"@,
            }
        },
{
    if !cache_ok {
        return "missing cache";
    }
    match heads {
        None => "ok",
        Some((Some(l), Some(h))) => {
            if str_eq(l.as_str(), h.as_str()) {
                "up to date"
            } else {
                "out of date"
            }
        },
        Some(_) => "unknown",
    }
}

} // verus!
