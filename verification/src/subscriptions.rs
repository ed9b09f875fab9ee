//! The user's tap subscriptions (`subscriptions.toml`): which remote taps
//! to load, from where, and in what priority (lower wins). The implicit
//! user tap `local` never appears here.

use vstd::prelude::*;
use crate::catalog::{is_valid_id, valid_id};
use crate::text::{chars_of, owned, seq_lt_exec, str_eq, string_views};
use crate::order::{lemma_name_order_facts, name_le};
use vstd::relations::{sorted_by, total_ordering};

verus! {

broadcast use vstd::seq_lib::group_to_multiset_ensures;

#[derive(Debug, Clone, PartialEq, Eq)]
pub struct SubscriptionManifest {
    pub schema_version: u32,
    pub taps: Vec<TapSubscription>,
}

#[derive(Debug, Clone, PartialEq, Eq)]
pub struct TapSubscription {
    pub id: String,
    pub source: String,
    /// When the subscription was added, as a TOML datetime.
    pub added_at: String,
    pub priority: u32,
}

#[derive(Debug)]
pub enum SubscriptionError {
    BadSchemaVersion(u32),
    DuplicateId(String),
    ReservedId,
    InvalidId(String),
    Io(String),
    Toml(String),
}

/// The first rule that `taps[..k]` breaks, checking tap after tap: the
/// reserved id, then the id's form, then a repeated id.
pub open spec fn first_tap_error(taps: Seq<TapSubscription>, k: int) -> Option<
    (int, SubscriptionErrorKind),
>
    decreases k,
{
    if k <= 0 {
        None
    } else {
        match first_tap_error(taps, k - 1) {
            Some(e) => Some(e),
            None => {
                let id = taps[k - 1].id@;
                if id == "local"@ {
                    Some((k - 1, SubscriptionErrorKind::Reserved))
                } else if !valid_id(id) {
                    Some((k - 1, SubscriptionErrorKind::Invalid))
                } else if exists|j: int| 0 <= j < k - 1 && #[trigger] taps[j].id@ == id {
                    Some((k - 1, SubscriptionErrorKind::Duplicate))
                } else {
                    None
                }
            },
        }
    }
}

pub enum SubscriptionErrorKind {
    Reserved,
    Invalid,
    Duplicate,
}

pub open spec fn ids_unique(taps: Seq<TapSubscription>) -> bool {
    forall|i: int, j: int| 0 <= i < j < taps.len() ==> #[trigger] taps[i].id@ != #[trigger] taps[j].id@
}

impl SubscriptionManifest {
    /// A manifest with no subscriptions.
    pub fn empty() -> (r: Self)
        ensures
            r.schema_version == 1,
            r.taps@.len() == 0,
    {
        SubscriptionManifest { schema_version: 1, taps: Vec::new() }
    }

    /// Schema version 1, and every tap id well-formed, not `local`, and
    /// not repeated; the first violation, in tap order, is reported.
    pub fn validate(&self) -> (r: Result<(), SubscriptionError>)
        ensures
            match r {
                Ok(()) => self.schema_version == 1 && first_tap_error(self.taps@, self.taps@.len() as int) is None,
                Err(SubscriptionError::BadSchemaVersion(v)) => self.schema_version != 1 && v == self.schema_version,
                Err(SubscriptionError::ReservedId) => self.schema_version == 1 && first_tap_error(self.taps@, self.taps@.len() as int) matches Some((_, SubscriptionErrorKind::Reserved)),
                Err(SubscriptionError::InvalidId(id)) => {
                    &&& self.schema_version == 1
                    &&& first_tap_error(self.taps@, self.taps@.len() as int) matches Some((k, SubscriptionErrorKind::Invalid))
                    &&& id@ == self.taps@[k].id@
                },
                Err(SubscriptionError::DuplicateId(id)) => {
                    &&& self.schema_version == 1
                    &&& first_tap_error(self.taps@, self.taps@.len() as int) matches Some((k, SubscriptionErrorKind::Duplicate))
                    &&& id@ == self.taps@[k].id@
                },
                Err(_) => false,
            },
            r is Ok ==> ids_unique(self.taps@),
    {
        if self.schema_version != 1 {
            return Err(SubscriptionError::BadSchemaVersion(self.schema_version));
        }
        let n = self.taps.len();
        let mut i: usize = 0;
        while i < n
            invariant
                self.schema_version == 1,
                n == self.taps@.len(),
                i <= n,
                first_tap_error(self.taps@, i as int) is None,
                ids_unique(self.taps@.take(i as int)),
            decreases n - i,
        {
            let id = &self.taps[i].id;
            if str_eq(id.as_str(), "local") {
                assert(first_tap_error(self.taps@, i as int + 1) == Some((i as int, SubscriptionErrorKind::Reserved)));
                proof {
                    lemma_first_error_sticks(self.taps@, i as int + 1, n as int);
                }
                return Err(SubscriptionError::ReservedId);
            }
            if !is_valid_id(id.as_str()) {
                assert(first_tap_error(self.taps@, i as int + 1) == Some((i as int, SubscriptionErrorKind::Invalid)));
                proof {
                    lemma_first_error_sticks(self.taps@, i as int + 1, n as int);
                }
                return Err(SubscriptionError::InvalidId(id.clone()));
            }
            let mut j: usize = 0;
            while j < i
                invariant
                    self.schema_version == 1,
                    i < n,
                    n == self.taps@.len(),
                    j <= i,
                    first_tap_error(self.taps@, i as int) is None,
                    self.taps@[i as int].id@ != "local"@,
                    id@ == self.taps@[i as int].id@,
                    valid_id(self.taps@[i as int].id@),
                    ids_unique(self.taps@.take(i as int)),
                    forall|k: int| 0 <= k < j ==> #[trigger] self.taps@[k].id@ != self.taps@[i as int].id@,
                decreases i - j,
            {
                if self.taps[j].id == self.taps[i].id {
                    assert(self.taps@[j as int].id@ == self.taps@[i as int].id@);
                    assert(first_tap_error(self.taps@, i as int + 1) == Some((i as int, SubscriptionErrorKind::Duplicate)));
                    proof {
                        lemma_first_error_sticks(self.taps@, i as int + 1, n as int);
                    }
                    return Err(SubscriptionError::DuplicateId(id.clone()));
                }
                j = j + 1;
            }
            assert(ids_unique(self.taps@.take(i + 1))) by {
                assert forall|a: int, b: int| 0 <= a < b < i + 1 implies #[trigger] self.taps@.take(i + 1)[a].id@
                    != #[trigger] self.taps@.take(i + 1)[b].id@ by {
                    if b < i {
                        assert(self.taps@.take(i as int)[a] == self.taps@[a]);
                        assert(self.taps@.take(i as int)[b] == self.taps@[b]);
                    }
                }
            }
            i = i + 1;
        }
        assert(self.taps@.take(n as int) =~= self.taps@);
        Ok(())
    }

    /// One past the highest priority in use, or 0 with no subscriptions.
    pub fn next_priority(&self) -> (r: u32)
        requires
            forall|i: int| 0 <= i < self.taps@.len() ==> #[trigger] self.taps@[i].priority < u32::MAX,
        ensures
            self.taps@.len() == 0 ==> r == 0,
            self.taps@.len() > 0 ==> (exists|i: int| 0 <= i < self.taps@.len() && r == #[trigger] self.taps@[i].priority + 1)
                && forall|i: int| 0 <= i < self.taps@.len() ==> #[trigger] self.taps@[i].priority < r,
    {
        if self.taps.len() == 0 {
            return 0;
        }
        let mut max: u32 = self.taps[0].priority;
        let mut i: usize = 1;
        while i < self.taps.len()
            invariant
                1 <= i <= self.taps@.len(),
                forall|k: int| 0 <= k < self.taps@.len() ==> #[trigger] self.taps@[k].priority < u32::MAX,
                exists|k: int| 0 <= k < i && max == #[trigger] self.taps@[k].priority,
                forall|k: int| 0 <= k < i ==> #[trigger] self.taps@[k].priority <= max,
            decreases self.taps@.len() - i,
        {
            if self.taps[i].priority > max {
                max = self.taps[i].priority;
            }
            i = i + 1;
        }
        max + 1
    }
}

proof fn lemma_first_error_sticks(taps: Seq<TapSubscription>, k: int, n: int)
    requires
        0 <= k <= n <= taps.len(),
        first_tap_error(taps, k) is Some,
    ensures
        first_tap_error(taps, n) == first_tap_error(taps, k),
    decreases n - k,
{
    if k < n {
        lemma_first_error_sticks(taps, k, n - 1);
    }
}

/// Is `id` a well-formed tap id? The same form as a game id.
pub fn is_valid_tap_id(id: &str) -> (r: bool)
    ensures
        r == valid_id(id@),
{
    is_valid_id(id)
}

/// Why a priority change was refused.
#[derive(Debug)]
pub enum PriorityError {
    /// `local` has no editable priority.
    LocalTap,
    /// No subscription has that id.
    NotSubscribed(String),
    /// Another subscription already holds that priority.
    PriorityTaken { priority: u32, holder: String },
}

impl PriorityError {
    /// The message shown for the refusal.
    pub fn message(&self) -> (r: String)
        ensures
            r@ == match self {
                PriorityError::LocalTap => "the local tap always wins and has no editable priority"@,
                PriorityError::NotSubscribed(id) => "not subscribed to \""@ + id@ + "\""@,
                PriorityError::PriorityTaken { priority, holder } => "priority "@ + crate::text::decimal(
                    *priority as nat,
                ) + " is already used by \""@ + holder@ + "\""@,
            },
    {
        match self {
            PriorityError::LocalTap => owned("the local tap always wins and has no editable priority"),
            PriorityError::NotSubscribed(id) => {
                let mut m = owned("not subscribed to \"");
                crate::text::push_str(&mut m, id.as_str());
                crate::text::push_str(&mut m, "\"");
                m
            },
            PriorityError::PriorityTaken { priority, holder } => {
                let mut m = owned("priority ");
                crate::text::push_decimal(&mut m, *priority as u64);
                crate::text::push_str(&mut m, " is already used by \"");
                crate::text::push_str(&mut m, holder.as_str());
                crate::text::push_str(&mut m, "\"");
                m
            },
        }
    }
}

pub open spec fn has_id(taps: Seq<TapSubscription>, id: Seq<char>) -> bool {
    exists|k: int| 0 <= k < taps.len() && #[trigger] taps[k].id@ == id
}

/// Index of the first other tap holding `priority`, if any.
pub open spec fn first_holder(taps: Seq<TapSubscription>, id: Seq<char>, priority: u32, k: int) -> Option<int>
    decreases taps.len() - k,
{
    if k < 0 || k >= taps.len() {
        None
    } else if taps[k].id@ != id && taps[k].priority == priority {
        Some(k)
    } else {
        first_holder(taps, id, priority, k + 1)
    }
}

/// `taps` with every tap named `id` given `priority`; nothing else changes.
pub open spec fn with_priority(taps: Seq<TapSubscription>, id: Seq<char>, priority: u32) -> Seq<TapSubscription> {
    Seq::new(taps.len(), |k: int| if taps[k].id@ == id {
        TapSubscription { priority, ..taps[k] }
    } else {
        taps[k]
    })
}

/// Set subscription `id`'s priority, refusing `local`, an unknown id, and
/// a priority another subscription holds.
pub fn set_tap_priority(manifest: &mut SubscriptionManifest, id: &str, priority: u32) -> (r: Result<(), PriorityError>)
    ensures
        final(manifest).schema_version == old(manifest).schema_version,
        match r {
            Ok(()) => id@ != "local"@ && has_id(old(manifest).taps@, id@)
                && first_holder(old(manifest).taps@, id@, priority, 0) is None
                && final(manifest).taps@ == with_priority(old(manifest).taps@, id@, priority),
            Err(PriorityError::LocalTap) => id@ == "local"@ && final(manifest).taps@ == old(manifest).taps@,
            Err(PriorityError::NotSubscribed(x)) => id@ != "local"@ && !has_id(old(manifest).taps@, id@)
                && x@ == id@ && final(manifest).taps@ == old(manifest).taps@,
            Err(PriorityError::PriorityTaken { priority: p, holder }) => {
                &&& id@ != "local"@
                &&& has_id(old(manifest).taps@, id@)
                &&& final(manifest).taps@ == old(manifest).taps@
                &&& p == priority
                &&& first_holder(old(manifest).taps@, id@, priority, 0) matches Some(k)
                &&& holder@ == old(manifest).taps@[k].id@
            },
        },
{
    if str_eq(id, "local") {
        return Err(PriorityError::LocalTap);
    }
    let n = manifest.taps.len();
    let mut found = false;
    let mut i: usize = 0;
    while i < n
        invariant
            n == manifest.taps@.len(),
            *manifest == *old(manifest),
            i <= n,
            found == exists|k: int| 0 <= k < i && #[trigger] manifest.taps@[k].id@ == id@,
        decreases n - i,
    {
        if str_eq(manifest.taps[i].id.as_str(), id) {
            found = true;
        }
        i = i + 1;
    }
    if !found {
        return Err(PriorityError::NotSubscribed(owned(id)));
    }
    assert(has_id(manifest.taps@, id@));
    let mut k: usize = 0;
    while k < n
        invariant
            n == manifest.taps@.len(),
            *manifest == *old(manifest),
            has_id(manifest.taps@, id@),
            id@ != "local"@,
            k <= n,
            first_holder(manifest.taps@, id@, priority, 0) == first_holder(manifest.taps@, id@, priority, k as int),
        decreases n - k,
    {
        if !str_eq(manifest.taps[k].id.as_str(), id) && manifest.taps[k].priority == priority {
            return Err(PriorityError::PriorityTaken { priority, holder: manifest.taps[k].id.clone() });
        }
        k = k + 1;
    }
    let ghost start = manifest.taps@;
    let mut j: usize = 0;
    while j < n
        invariant
            n == manifest.taps@.len(),
            manifest.schema_version == old(manifest).schema_version,
            start == old(manifest).taps@,
            n == start.len(),
            j <= n,
            forall|q: int| 0 <= q < j ==> #[trigger] manifest.taps@[q] == with_priority(start, id@, priority)[q],
            forall|q: int| j <= q < n ==> #[trigger] manifest.taps@[q] == start[q],
        decreases n - j,
    {
        if str_eq(manifest.taps[j].id.as_str(), id) {
            let t = TapSubscription {
                id: manifest.taps[j].id.clone(),
                source: manifest.taps[j].source.clone(),
                added_at: manifest.taps[j].added_at.clone(),
                priority,
            };
            manifest.taps.set(j, t);
        }
        j = j + 1;
    }
    assert(manifest.taps@ =~= with_priority(start, id@, priority));
    Ok(())
}

/// A subscription other than the one promoted: its priority, its place in
/// the manifest, and its id.
pub type Ranked = (u32, int, Seq<char>);

/// Lower priority first; equal priorities keep manifest order.
pub open spec fn rank_le(a: Ranked, b: Ranked) -> bool {
    a.0 < b.0 || (a.0 == b.0 && (a.1 < b.1 || (a.1 == b.1 && name_le(a.2, b.2))))
}

pub open spec fn rank_order() -> spec_fn(Ranked, Ranked) -> bool {
    |a: Ranked, b: Ranked| rank_le(a, b)
}

/// The subscriptions among `taps[..k]` not named `id`, as [`Ranked`].
pub open spec fn others_of(taps: Seq<TapSubscription>, id: Seq<char>, k: int) -> Seq<Ranked>
    decreases k,
{
    if k <= 0 {
        Seq::empty()
    } else if taps[k - 1].id@ != id {
        others_of(taps, id, k - 1).push((taps[k - 1].priority, k - 1, taps[k - 1].id@))
    } else {
        others_of(taps, id, k - 1)
    }
}

pub open spec fn ranked_ids(r: Seq<Ranked>) -> Seq<Seq<char>> {
    r.map_values(|x: Ranked| x.2)
}

/// The new order of the subscriptions: `id` first, then the others by
/// priority, ties in manifest order.
pub open spec fn promotion_order(taps: Seq<TapSubscription>, id: Seq<char>) -> Seq<Seq<char>> {
    seq![id] + ranked_ids(others_of(taps, id, taps.len() as int).sort_by(rank_order()))
}

/// The last place of `x` in `order`.
pub open spec fn last_place(order: Seq<Seq<char>>, x: Seq<char>) -> Option<int>
    decreases order.len(),
{
    if order.len() == 0 {
        None
    } else if order.last() == x {
        Some(order.len() - 1)
    } else {
        last_place(order.drop_last(), x)
    }
}

/// Each subscription renumbered to its (last) place in `order`.
pub open spec fn renumbered(taps: Seq<TapSubscription>, order: Seq<Seq<char>>) -> Seq<TapSubscription> {
    Seq::new(taps.len(), |k: int| match last_place(order, taps[k].id@) {
        Some(p) => TapSubscription { priority: p as u32, ..taps[k] },
        None => taps[k],
    })
}

proof fn lemma_rank_order_total()
    ensures
        total_ordering(rank_order()),
{
    assert forall|x: Ranked| #[trigger] rank_order()(x, x) by {
        lemma_name_order_facts(x.2, x.2, x.2);
    }
    assert forall|x: Ranked, y: Ranked| #[trigger] rank_order()(x, y) && #[trigger] rank_order()(y, x) implies x == y by {
        lemma_name_order_facts(x.2, y.2, x.2);
    }
    assert forall|x: Ranked, y: Ranked, z: Ranked| #[trigger] rank_order()(x, y) && #[trigger] rank_order()(y, z) implies rank_order()(x, z) by {
        lemma_name_order_facts(x.2, y.2, z.2);
    }
    assert forall|x: Ranked, y: Ranked| #[trigger] rank_order()(x, y) || #[trigger] rank_order()(y, x) by {
        lemma_name_order_facts(x.2, y.2, x.2);
    }
}

pub open spec fn ranked_views(v: Seq<(u32, usize, String)>) -> Seq<Ranked> {
    v.map_values(|e: (u32, usize, String)| (e.0, e.1 as int, e.2@))
}

fn rank_le_exec(a: &(u32, usize, String), b: &(u32, usize, String)) -> (r: bool)
    ensures
        r == rank_le((a.0, a.1 as int, a.2@), (b.0, b.1 as int, b.2@)),
{
    if a.0 != b.0 {
        return a.0 < b.0;
    }
    if a.1 != b.1 {
        return a.1 < b.1;
    }
    let ca = chars_of(a.2.as_str());
    let cb = chars_of(b.2.as_str());
    !seq_lt_exec(cb.as_slice(), ca.as_slice())
}

fn sort_ranked(v: Vec<(u32, usize, String)>) -> (r: Vec<(u32, usize, String)>)
    ensures
        ranked_views(r@) == ranked_views(v@).sort_by(rank_order()),
{
    proof {
        lemma_rank_order_total();
    }
    let mut out: Vec<(u32, usize, String)> = Vec::new();
    let mut i: usize = 0;
    while i < v.len()
        invariant
            i <= v@.len(),
            total_ordering(rank_order()),
            sorted_by(ranked_views(out@), rank_order()),
            ranked_views(out@).to_multiset() == ranked_views(v@).take(i as int).to_multiset(),
        decreases v@.len() - i,
    {
        let x = (v[i].0, v[i].1, v[i].2.clone());
        let ghost xv = (x.0, x.1 as int, x.2@);
        let mut j: usize = 0;
        while j < out.len() && rank_le_exec(&out[j], &x)
            invariant
                j <= out@.len(),
                xv == (x.0, x.1 as int, x.2@),
                forall|k: int| 0 <= k < j ==> rank_le(#[trigger] ranked_views(out@)[k], xv),
            decreases out@.len() - j,
        {
            j = j + 1;
        }
        let ghost before = out@;
        proof {
            if j < before.len() {
                assert(!rank_order()(ranked_views(before)[j as int], xv));
                assert(rank_order()(xv, ranked_views(before)[j as int]));
            }
        }
        out.insert(j, x);
        proof {
            assert(ranked_views(out@) =~= ranked_views(before).insert(j as int, xv));
            let sv = ranked_views(out@);
            let sb = ranked_views(before);
            assert forall|a: int, b: int| 0 <= a < b < sv.len() implies #[trigger] rank_order()(sv[a], sv[b]) by {
                if b < j {
                    assert(rank_order()(sb[a], sb[b]));
                } else if a > j {
                    assert(rank_order()(sb[a - 1], sb[b - 1]));
                } else if a == j {
                    assert(rank_order()(xv, sb[j as int]));
                    if b - 1 > j {
                        assert(rank_order()(sb[j as int], sb[b - 1]));
                    }
                } else {
                    assert(rank_order()(sb[a], xv));
                }
            }
            assert(ranked_views(v@).take(i + 1) =~= ranked_views(v@).take(i as int).push(xv));
            vstd::seq_lib::to_multiset_build(ranked_views(v@).take(i as int), xv);
            vstd::seq_lib::to_multiset_insert(ranked_views(before), j as int, xv);
        }
        i = i + 1;
    }
    proof {
        assert(ranked_views(v@).take(v@.len() as int) =~= ranked_views(v@));
        ranked_views(v@).lemma_sort_by_ensures(rank_order());
        vstd::seq_lib::lemma_sorted_unique(ranked_views(out@), ranked_views(v@).sort_by(rank_order()), rank_order());
    }
    out
}

/// Make subscription `id` win over every other (priority 0), renumbering
/// the others after it by their old priorities, ties in manifest order.
/// `local` already wins: nothing changes and `false` is returned.
pub fn promote_tap_to_default(manifest: &mut SubscriptionManifest, id: &str) -> (r: Result<bool, PriorityError>)
    requires
        old(manifest).taps@.len() < u32::MAX,
    ensures
        final(manifest).schema_version == old(manifest).schema_version,
        match r {
            Ok(true) => id@ != "local"@ && has_id(old(manifest).taps@, id@)
                && final(manifest).taps@ == renumbered(old(manifest).taps@, promotion_order(old(manifest).taps@, id@)),
            Ok(false) => id@ == "local"@ && final(manifest).taps@ == old(manifest).taps@,
            Err(PriorityError::NotSubscribed(x)) => id@ != "local"@ && !has_id(old(manifest).taps@, id@)
                && x@ == id@ && final(manifest).taps@ == old(manifest).taps@,
            Err(_) => false,
        },
{
    if str_eq(id, "local") {
        return Ok(false);
    }
    let n = manifest.taps.len();
    let mut others: Vec<(u32, usize, String)> = Vec::new();
    let mut found = false;
    let mut i: usize = 0;
    while i < n
        invariant
            n == manifest.taps@.len(),
            *manifest == *old(manifest),
            i <= n,
            found == exists|k: int| 0 <= k < i && #[trigger] manifest.taps@[k].id@ == id@,
            ranked_views(others@) == others_of(manifest.taps@, id@, i as int),
        decreases n - i,
    {
        if str_eq(manifest.taps[i].id.as_str(), id) {
            found = true;
        } else {
            let ghost before = others@;
            others.push((manifest.taps[i].priority, i, manifest.taps[i].id.clone()));
            assert(ranked_views(others@) =~= ranked_views(before).push((manifest.taps@[i as int].priority, i as int, manifest.taps@[i as int].id@)));
        }
        i = i + 1;
    }
    if !found {
        return Err(PriorityError::NotSubscribed(owned(id)));
    }
    let ghost ov0 = ranked_views(others@);
    assert(ov0 == others_of(old(manifest).taps@, id@, n as int));
    let sorted = sort_ranked(others);
    let mut order: Vec<String> = Vec::new();
    order.push(owned(id));
    let mut k: usize = 0;
    while k < sorted.len()
        invariant
            k <= sorted@.len(),
            string_views(order@) == seq![id@] + ranked_ids(ranked_views(sorted@)).take(k as int),
        decreases sorted@.len() - k,
    {
        let ghost before = order@;
        order.push(sorted[k].2.clone());
        assert(ranked_ids(ranked_views(sorted@))[k as int] == sorted@[k as int].2@);
        assert(string_views(order@) =~= string_views(before).push(sorted@[k as int].2@));
        assert(string_views(order@) =~= seq![id@] + ranked_ids(ranked_views(sorted@)).take(k + 1));
        k = k + 1;
    }
    assert(ranked_ids(ranked_views(sorted@)).take(sorted@.len() as int) =~= ranked_ids(ranked_views(sorted@)));
    assert(string_views(order@) == promotion_order(old(manifest).taps@, id@));
    let ghost start = manifest.taps@;
    let ghost ov = string_views(order@);
    assert(order@.len() <= n + 1) by {
        assert(ranked_views(sorted@).len() == others_of(start, id@, n as int).len()) by {
            lemma_rank_order_total();
            ov0.lemma_sort_by_ensures(rank_order());
            vstd::seq_lib::to_multiset_len(ov0);
            vstd::seq_lib::to_multiset_len(ov0.sort_by(rank_order()));
        }
        lemma_others_len(start, id@, n as int);
    }
    let mut rank: usize = 0;
    while rank < order.len()
        invariant
            rank <= order@.len(),
            order@.len() <= n + 1,
            n < u32::MAX,
            n == manifest.taps@.len(),
            n == start.len(),
            ov == string_views(order@),
            manifest.schema_version == old(manifest).schema_version,
            manifest.taps@ == renumbered(start, ov.take(rank as int)),
        decreases order@.len() - rank,
    {
        let ghost mid = manifest.taps@;
        let mut t: usize = 0;
        while t < n
            invariant
                t <= n,
                rank < order@.len(),
                order@.len() <= n + 1,
                n < u32::MAX,
                n == manifest.taps@.len(),
                n == start.len(),
                ov == string_views(order@),
                mid == renumbered(start, ov.take(rank as int)),
                manifest.schema_version == old(manifest).schema_version,
                forall|q: int| 0 <= q < t ==> #[trigger] manifest.taps@[q] == renumbered(start, ov.take(rank + 1))[q],
                forall|q: int| t <= q < n ==> #[trigger] manifest.taps@[q] == mid[q],
            decreases n - t,
        {
            proof {
                assert(ov.take(rank + 1).drop_last() =~= ov.take(rank as int));
                assert(ov[rank as int] == order@[rank as int]@);
            }
            if manifest.taps[t].id == order[rank] {
                let nt = TapSubscription {
                    id: manifest.taps[t].id.clone(),
                    source: manifest.taps[t].source.clone(),
                    added_at: manifest.taps[t].added_at.clone(),
                    priority: rank as u32,
                };
                manifest.taps.set(t, nt);
            }
            t = t + 1;
        }
        assert(manifest.taps@ =~= renumbered(start, ov.take(rank + 1)));
        rank = rank + 1;
    }
    assert(ov.take(order@.len() as int) =~= ov);
    Ok(true)
}

proof fn lemma_others_len(taps: Seq<TapSubscription>, id: Seq<char>, k: int)
    requires
        0 <= k <= taps.len(),
    ensures
        others_of(taps, id, k).len() <= k,
    decreases k,
{
    if k > 0 {
        lemma_others_len(taps, id, k - 1);
    }
}

proof fn lemma_others_shape(taps: Seq<TapSubscription>, id: Seq<char>, k: int)
    requires
        0 <= k <= taps.len(),
    ensures
        forall|q: int| 0 <= q < others_of(taps, id, k).len() ==> {
            let x = #[trigger] others_of(taps, id, k)[q];
            &&& 0 <= x.1 < k
            &&& taps[x.1].id@ != id
            &&& x == (taps[x.1].priority, x.1, taps[x.1].id@)
        },
        forall|q1: int, q2: int| 0 <= q1 < q2 < others_of(taps, id, k).len() ==> (#[trigger] others_of(taps, id, k)[q1]).1
            < (#[trigger] others_of(taps, id, k)[q2]).1,
        forall|a: int| 0 <= a < k && taps[a].id@ != id ==> others_of(taps, id, k).contains(
            (#[trigger] taps[a].priority, a, taps[a].id@),
        ),
    decreases k,
{
    if k > 0 {
        lemma_others_shape(taps, id, k - 1);
        let prev = others_of(taps, id, k - 1);
        if taps[k - 1].id@ != id {
            let x = (taps[k - 1].priority, k - 1, taps[k - 1].id@);
            assert(others_of(taps, id, k) == prev.push(x));
            assert forall|a: int| 0 <= a < k && taps[a].id@ != id implies others_of(taps, id, k).contains(
                (#[trigger] taps[a].priority, a, taps[a].id@),
            ) by {
                if a < k - 1 {
                    let q = choose|q: int| 0 <= q < prev.len() && prev[q] == (taps[a].priority, a, taps[a].id@);
                    assert(others_of(taps, id, k)[q] == prev[q]);
                } else {
                    assert(others_of(taps, id, k)[prev.len() as int] == x);
                }
            }
        }
    }
}

proof fn lemma_last_place_unique(order: Seq<Seq<char>>, x: Seq<char>, p: int)
    requires
        0 <= p < order.len(),
        order[p] == x,
        forall|j: int| 0 <= j < order.len() && j != p ==> order[j] != x,
    ensures
        last_place(order, x) == Some(p),
    decreases order.len(),
{
    if p < order.len() - 1 {
        assert(order.last() != x);
        lemma_last_place_unique(order.drop_last(), x, p);
    }
}

/// Promoting a subscription of a manifest whose ids are distinct puts it
/// first (priority 0), leaves every other field alone, gives every
/// subscription a distinct priority, and keeps the order of the others:
/// of two other subscriptions, the one with the lower old priority (at
/// equal priorities, the one listed first) keeps the lower priority.
pub proof fn lemma_promotion(taps: Seq<TapSubscription>, id: Seq<char>)
    requires
        ids_unique(taps),
        has_id(taps, id),
        taps.len() < u32::MAX,
    ensures
        renumbered(taps, promotion_order(taps, id)).len() == taps.len(),
        forall|k: int| 0 <= k < taps.len() ==> {
            let t = #[trigger] renumbered(taps, promotion_order(taps, id))[k];
            &&& t.id == taps[k].id
            &&& t.source == taps[k].source
            &&& t.added_at == taps[k].added_at
            &&& taps[k].id@ == id ==> t.priority == 0
        },
        forall|i: int, j: int| 0 <= i < j < taps.len() ==> (#[trigger] renumbered(taps, promotion_order(taps, id))[i]).priority
            != (#[trigger] renumbered(taps, promotion_order(taps, id))[j]).priority,
        forall|a: int, b: int| 0 <= a < taps.len() && 0 <= b < taps.len() && taps[a].id@ != id && taps[b].id@ != id
            && (taps[a].priority < taps[b].priority || (taps[a].priority == taps[b].priority && a < b)) ==>
            (#[trigger] renumbered(taps, promotion_order(taps, id))[a]).priority
            < (#[trigger] renumbered(taps, promotion_order(taps, id))[b]).priority,
{
    let n = taps.len() as int;
    let o = others_of(taps, id, n);
    lemma_others_shape(taps, id, n);
    lemma_others_len(taps, id, n);
    lemma_rank_order_total();
    let s = o.sort_by(rank_order());
    o.lemma_sort_by_ensures(rank_order());
    vstd::seq_lib::to_multiset_len(o);
    vstd::seq_lib::to_multiset_len(s);
    let order = promotion_order(taps, id);
    assert(order == seq![id] + ranked_ids(s));
    // the others, and so their sorted order, hold no element twice
    assert(o.no_duplicates()) by {
        assert forall|i: int, j: int| 0 <= i < o.len() && 0 <= j < o.len() && i != j implies o[i] != o[j] by {
            if i < j {
                assert(o[i].1 < o[j].1);
            } else {
                assert(o[j].1 < o[i].1);
            }
        }
    }
    o.lemma_multiset_has_no_duplicates();
    assert forall|x: Ranked| s.to_multiset().contains(x) implies s.to_multiset().count(x) == 1 by {
        assert(o.to_multiset().contains(x));
    }
    s.lemma_multiset_has_no_duplicates_conv();
    // every element of the sorted order is one of the others
    assert forall|q: int| 0 <= q < s.len() implies {
        let x = #[trigger] s[q];
        &&& 0 <= x.1 < n
        &&& taps[x.1].id@ != id
        &&& x == (taps[x.1].priority, x.1, taps[x.1].id@)
    } by {
        assert(s.contains(s[q]));
        vstd::seq_lib::to_multiset_contains(s, s[q]);
        vstd::seq_lib::to_multiset_contains(o, s[q]);
        let r = choose|r: int| 0 <= r < o.len() && o[r] == s[q];
    }
    // the place of each other subscription in the sorted order
    assert forall|a: int| 0 <= a < n && taps[a].id@ != id implies exists|q: int| 0 <= q < s.len() && #[trigger] s[q] == (taps[a].priority, a, taps[a].id@) by {
        let x = (taps[a].priority, a, taps[a].id@);
        assert(o.contains(x));
        vstd::seq_lib::to_multiset_contains(o, x);
        vstd::seq_lib::to_multiset_contains(s, x);
    }
    let pos = |k: int| if taps[k].id@ == id {
        0int
    } else {
        1 + choose|q: int| 0 <= q < s.len() && s[q] == (taps[k].priority, k, taps[k].id@)
    };
    assert forall|k: int| 0 <= k < n implies last_place(order, #[trigger] taps[k].id@) == Some(pos(k)) && 0 <= pos(k) <= n by {
        if taps[k].id@ == id {
            assert forall|j: int| 0 <= j < order.len() && j != 0 implies order[j] != id by {
                assert(order[j] == s[j - 1].2);
            }
            lemma_last_place_unique(order, id, 0);
        } else {
            let q = choose|q: int| 0 <= q < s.len() && s[q] == (taps[k].priority, k, taps[k].id@);
            assert(order[1 + q] == taps[k].id@);
            assert forall|j: int| 0 <= j < order.len() && j != 1 + q implies order[j] != taps[k].id@ by {
                if j > 0 {
                    assert(order[j] == s[j - 1].2);
                    if s[j - 1].2 == taps[k].id@ {
                        let m = s[j - 1].1;
                        assert(taps[m].id@ == taps[k].id@);
                        if m != k {
                            if m < k {
                                assert(taps[m].id@ != taps[k].id@);
                            } else {
                                assert(taps[k].id@ != taps[m].id@);
                            }
                        }
                        assert(s[j - 1] == s[q]);
                    }
                }
            }
            lemma_last_place_unique(order, taps[k].id@, 1 + q);
            assert(pos(k) == 1 + q);
        }
    }
    let p = renumbered(taps, order);
    assert forall|k: int| 0 <= k < n implies (#[trigger] p[k]).priority == pos(k) by {
        assert(last_place(order, taps[k].id@) == Some(pos(k)));
    }
    assert forall|i: int, j: int| 0 <= i < j < n implies (#[trigger] p[i]).priority != (#[trigger] p[j]).priority by {
        assert(p[i].priority == pos(i));
        assert(p[j].priority == pos(j));
        assert(taps[i].id@ != taps[j].id@);
        if pos(i) == pos(j) {
            assert(last_place(order, taps[i].id@) == Some(pos(i)));
            assert(order[pos(i)] == taps[i].id@) by {
                if taps[i].id@ == id {
                } else {
                }
            }
        }
    }
    assert forall|a: int, b: int| 0 <= a < n && 0 <= b < n && taps[a].id@ != id && taps[b].id@ != id
        && (taps[a].priority < taps[b].priority || (taps[a].priority == taps[b].priority && a < b)) implies
        (#[trigger] p[a]).priority < (#[trigger] p[b]).priority by {
        let qa = pos(a) - 1;
        let qb = pos(b) - 1;
        let xa = (taps[a].priority, a, taps[a].id@);
        let xb = (taps[b].priority, b, taps[b].id@);
        assert(s[qa] == xa);
        assert(s[qb] == xb);
        if qb <= qa {
            if qb < qa {
                assert(rank_order()(s[qb], s[qa]));
            }
            assert(false);
        }
    }
}


/// No two subscriptions hold the same priority.
pub open spec fn priorities_unique(taps: Seq<TapSubscription>) -> bool {
    forall|i: int, j: int| 0 <= i < j < taps.len() ==> #[trigger] taps[i].priority != #[trigger] taps[j].priority
}

/// Every id well-formed and not `local`, and no id twice: what
/// [`SubscriptionManifest::validate`] accepts of the taps.
pub open spec fn taps_ok(taps: Seq<TapSubscription>) -> bool {
    &&& forall|i: int| 0 <= i < taps.len() ==> (#[trigger] taps[i]).id@ != "local"@ && valid_id(taps[i].id@)
    &&& ids_unique(taps)
}

/// The rule check of `validate` finds nothing in the first `n` taps exactly
/// when they are well-formed.
pub proof fn lemma_no_error_iff_ok(taps: Seq<TapSubscription>, n: int)
    requires
        0 <= n <= taps.len(),
    ensures
        first_tap_error(taps, n) is None <==> taps_ok(taps.take(n)),
    decreases n,
{
    if n > 0 {
        lemma_no_error_iff_ok(taps, n - 1);
        let p = taps.take(n - 1);
        let t = taps.take(n);
        assert(t.drop_last() =~= p);
        assert(t.last() == taps[n - 1]);
        if first_tap_error(taps, n) is None {
            assert(first_tap_error(taps, n - 1) is None);
            assert forall|a: int, b: int| 0 <= a < b < t.len() implies #[trigger] t[a].id@ != #[trigger] t[b].id@ by {
                if b < n - 1 {
                    assert(t[a] == p[a] && t[b] == p[b]);
                } else {
                    assert(taps[a].id@ != taps[n - 1].id@);
                }
            }
        }
        if taps_ok(t) {
            assert(taps_ok(p)) by {
                assert forall|i: int| 0 <= i < p.len() implies (#[trigger] p[i]).id@ != "local"@ && valid_id(p[i].id@) by {
                    assert(p[i] == t[i]);
                }
                assert forall|a: int, b: int| 0 <= a < b < p.len() implies #[trigger] p[a].id@ != #[trigger] p[b].id@ by {
                    assert(p[a] == t[a] && p[b] == t[b]);
                }
            }
            assert(t[n - 1] == taps[n - 1]);
            assert(!(exists|j: int| 0 <= j < n - 1 && #[trigger] taps[j].id@ == taps[n - 1].id@)) by {
                if exists|j: int| 0 <= j < n - 1 && #[trigger] taps[j].id@ == taps[n - 1].id@ {
                    let j = choose|j: int| 0 <= j < n - 1 && #[trigger] taps[j].id@ == taps[n - 1].id@;
                    assert(t[j] == taps[j]);
                }
            }
        }
    } else {
        assert(taps.take(0) =~= Seq::<TapSubscription>::empty());
    }
}

/// A valid manifest's taps are well-formed.
pub proof fn lemma_valid_taps(taps: Seq<TapSubscription>)
    ensures
        first_tap_error(taps, taps.len() as int) is None <==> taps_ok(taps),
{
    lemma_no_error_iff_ok(taps, taps.len() as int);
    assert(taps.take(taps.len() as int) =~= taps);
}

proof fn lemma_no_holder(taps: Seq<TapSubscription>, id: Seq<char>, priority: u32, k: int)
    requires
        0 <= k,
        first_holder(taps, id, priority, k) is None,
    ensures
        forall|i: int| k <= i < taps.len() && (#[trigger] taps[i]).id@ != id ==> taps[i].priority != priority,
    decreases taps.len() - k,
{
    if k < taps.len() {
        lemma_no_holder(taps, id, priority, k + 1);
    }
}

/// Setting a priority keeps the taps well-formed, and keeps priorities
/// distinct when they were: [`set_tap_priority`] only succeeds when no other
/// tap holds the new priority.
pub proof fn lemma_set_priority_keeps_invariants(taps: Seq<TapSubscription>, id: Seq<char>, priority: u32)
    requires
        taps_ok(taps),
        first_holder(taps, id, priority, 0) is None,
    ensures
        taps_ok(with_priority(taps, id, priority)),
        priorities_unique(taps) ==> priorities_unique(with_priority(taps, id, priority)),
{
    let w = with_priority(taps, id, priority);
    lemma_no_holder(taps, id, priority, 0);
    assert forall|i: int| 0 <= i < w.len() implies (#[trigger] w[i]).id@ == taps[i].id@ by {}
    assert forall|a: int, b: int| 0 <= a < b < w.len() implies #[trigger] w[a].id@ != #[trigger] w[b].id@ by {
        assert(w[a].id@ == taps[a].id@ && w[b].id@ == taps[b].id@);
    }
    if priorities_unique(taps) {
        assert forall|a: int, b: int| 0 <= a < b < w.len() implies #[trigger] w[a].priority != #[trigger] w[b].priority by {
            if taps[a].id@ == id {
                assert(taps[b].id@ != id);
            } else if taps[b].id@ == id {
                assert(taps[a].id@ != id);
            }
        }
    }
}

} // verus!

verus! {

impl SubscriptionError {
    /// The text of the error.
    pub open spec fn message_view(&self) -> Seq<char> {
        match self {
            SubscriptionError::BadSchemaVersion(v) => "schema_version must be 1, got "@ + crate::text::decimal(*v as nat),
            SubscriptionError::DuplicateId(id) => "duplicate tap id: "@ + id@,
            SubscriptionError::ReservedId => "tap id 'local' is reserved and cannot appear in subscriptions.toml"@,
            SubscriptionError::InvalidId(id) => "invalid tap id "@ + crate::text::debug_quoted(id@) + ": must be lowercase letters, digits, and hyphens; start and end with a letter or digit"@,
            SubscriptionError::Io(m) => m@,
            SubscriptionError::Toml(m) => m@,
        }
    }

    /// The message shown for the error.
    pub fn message(&self) -> (r: String)
        ensures
            r@ == self.message_view(),
    {
        match self {
            SubscriptionError::BadSchemaVersion(v) => {
                let mut r = crate::text::owned("schema_version must be 1, got ");
                crate::text::push_decimal(&mut r, *v as u64);
                r
            },
            SubscriptionError::DuplicateId(id) => {
                let mut r = crate::text::owned("duplicate tap id: ");
                crate::text::push_str(&mut r, id.as_str());
                r
            },
            SubscriptionError::ReservedId => {
                let mut r = crate::text::owned("tap id 'local' is reserved and cannot appear in subscriptions.toml");
                r
            },
            SubscriptionError::InvalidId(id) => {
                let mut r = crate::text::owned("invalid tap id ");
                crate::text::push_debug_quoted(&mut r, id.as_str());
                crate::text::push_str(&mut r, ": must be lowercase letters, digits, and hyphens; start and end with a letter or digit");
                r
            },
            SubscriptionError::Io(m) => {
                let mut r = String::new();
                crate::text::push_str(&mut r, m.as_str());
                r
            },
            SubscriptionError::Toml(m) => {
                let mut r = String::new();
                crate::text::push_str(&mut r, m.as_str());
                r
            },
        }
    }
}

} // verus!
