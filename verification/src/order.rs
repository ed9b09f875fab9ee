//! The orders the heuristics sort by: names by code point, and executables
//! by size (largest first) and then by name.

use vstd::prelude::*;
use vstd::relations::{sorted_by, total_ordering};
use crate::text::{chars_of, seq_lt, seq_lt_exec, string_views};

verus! {

broadcast use vstd::seq_lib::group_to_multiset_ensures;

/// `a` sorts no later than `b` in `str` order.
pub open spec fn name_le(a: Seq<char>, b: Seq<char>) -> bool {
    !seq_lt(b, a)
}

pub open spec fn name_order() -> spec_fn(Seq<char>, Seq<char>) -> bool {
    |a: Seq<char>, b: Seq<char>| name_le(a, b)
}

/// An executable listed with its size: larger ones first, then by name.
pub open spec fn exe_le(a: (Seq<char>, u64), b: (Seq<char>, u64)) -> bool {
    a.1 > b.1 || (a.1 == b.1 && name_le(a.0, b.0))
}

pub open spec fn exe_order() -> spec_fn((Seq<char>, u64), (Seq<char>, u64)) -> bool {
    |a: (Seq<char>, u64), b: (Seq<char>, u64)| exe_le(a, b)
}

pub open spec fn exe_views(v: Seq<(String, u64)>) -> Seq<(Seq<char>, u64)> {
    v.map_values(|e: (String, u64)| (e.0@, e.1))
}

proof fn lemma_lt_irreflexive(a: Seq<char>)
    ensures
        !seq_lt(a, a),
    decreases a.len(),
{
    if a.len() > 0 {
        lemma_lt_irreflexive(a.drop_first());
    }
}

proof fn lemma_lt_trichotomy(a: Seq<char>, b: Seq<char>)
    ensures
        a == b || seq_lt(a, b) || seq_lt(b, a),
    decreases a.len(),
{
    if a.len() == 0 && b.len() == 0 {
        assert(a =~= b);
    } else if a.len() > 0 && b.len() > 0 && a[0] == b[0] {
        lemma_lt_trichotomy(a.drop_first(), b.drop_first());
        if a.drop_first() == b.drop_first() {
            assert(a =~= seq![a[0]] + a.drop_first());
            assert(b =~= seq![b[0]] + b.drop_first());
        }
    }
}

proof fn lemma_lt_asymmetric(a: Seq<char>, b: Seq<char>)
    ensures
        seq_lt(a, b) ==> !seq_lt(b, a),
    decreases a.len(),
{
    if a.len() > 0 && b.len() > 0 && a[0] == b[0] {
        lemma_lt_asymmetric(a.drop_first(), b.drop_first());
    }
}

proof fn lemma_lt_transitive(a: Seq<char>, b: Seq<char>, c: Seq<char>)
    ensures
        seq_lt(a, b) && seq_lt(b, c) ==> seq_lt(a, c),
    decreases a.len(),
{
    if a.len() > 0 && b.len() > 0 && c.len() > 0 && a[0] == b[0] && b[0] == c[0] {
        lemma_lt_transitive(a.drop_first(), b.drop_first(), c.drop_first());
    }
}

/// Irreflexivity, trichotomy, asymmetry and transitivity of `str` order,
/// instantiated on three sequences.
pub proof fn lemma_name_order_facts(a: Seq<char>, b: Seq<char>, c: Seq<char>)
    ensures
        !seq_lt(a, a),
        !seq_lt(b, b),
        !seq_lt(c, c),
        a == b || seq_lt(a, b) || seq_lt(b, a),
        b == c || seq_lt(b, c) || seq_lt(c, b),
        a == c || seq_lt(a, c) || seq_lt(c, a),
        seq_lt(a, b) ==> !seq_lt(b, a),
        seq_lt(b, c) ==> !seq_lt(c, b),
        seq_lt(a, c) ==> !seq_lt(c, a),
        seq_lt(a, b) && seq_lt(b, c) ==> seq_lt(a, c),
        seq_lt(c, b) && seq_lt(b, a) ==> seq_lt(c, a),
{
    lemma_lt_irreflexive(a);
    lemma_lt_irreflexive(b);
    lemma_lt_irreflexive(c);
    lemma_lt_trichotomy(a, b);
    lemma_lt_trichotomy(b, c);
    lemma_lt_trichotomy(a, c);
    lemma_lt_asymmetric(a, b);
    lemma_lt_asymmetric(b, c);
    lemma_lt_asymmetric(a, c);
    lemma_lt_transitive(a, b, c);
    lemma_lt_transitive(c, b, a);
}

pub proof fn lemma_name_order_total()
    ensures
        total_ordering(name_order()),
{
    assert forall|x: Seq<char>| #[trigger] name_order()(x, x) by {
        lemma_lt_irreflexive(x);
    }
    assert forall|x: Seq<char>, y: Seq<char>|
        #[trigger] name_order()(x, y) && #[trigger] name_order()(y, x) implies x == y by {
        lemma_lt_trichotomy(x, y);
    }
    assert forall|x: Seq<char>, y: Seq<char>, z: Seq<char>|
        #[trigger] name_order()(x, y) && #[trigger] name_order()(y, z) implies name_order()(
        x,
        z,
    ) by {
        lemma_lt_trichotomy(x, y);
        lemma_lt_transitive(z, x, y);
    }
    assert forall|x: Seq<char>, y: Seq<char>|
        #[trigger] name_order()(x, y) || #[trigger] name_order()(y, x) by {
        lemma_lt_asymmetric(x, y);
    }
}

pub proof fn lemma_exe_order_total()
    ensures
        total_ordering(exe_order()),
{
    lemma_name_order_total();
    assert forall|x: (Seq<char>, u64)| #[trigger] exe_order()(x, x) by {
        assert(name_order()(x.0, x.0));
    }
    assert forall|x: (Seq<char>, u64), y: (Seq<char>, u64)|
        #[trigger] exe_order()(x, y) && #[trigger] exe_order()(y, x) implies x == y by {
        assert(name_order()(x.0, y.0) && name_order()(y.0, x.0) ==> x.0 == y.0);
    }
    assert forall|x: (Seq<char>, u64), y: (Seq<char>, u64), z: (Seq<char>, u64)|
        #[trigger] exe_order()(x, y) && #[trigger] exe_order()(y, z) implies exe_order()(
        x,
        z,
    ) by {
        assert(name_order()(x.0, y.0) && name_order()(y.0, z.0) ==> name_order()(x.0, z.0));
    }
    assert forall|x: (Seq<char>, u64), y: (Seq<char>, u64)|
        #[trigger] exe_order()(x, y) || #[trigger] exe_order()(y, x) by {
        assert(name_order()(x.0, y.0) || name_order()(y.0, x.0));
    }
}

proof fn lemma_views_insert(v: Seq<String>, j: int, x: String)
    requires
        0 <= j <= v.len(),
    ensures
        string_views(v.insert(j, x)) == string_views(v).insert(j, x@),
{
    assert(string_views(v.insert(j, x)) =~= string_views(v).insert(j, x@));
}

proof fn lemma_exe_views_insert(v: Seq<(String, u64)>, j: int, x: (String, u64))
    requires
        0 <= j <= v.len(),
    ensures
        exe_views(v.insert(j, x)) == exe_views(v).insert(j, (x.0@, x.1)),
{
    assert(exe_views(v.insert(j, x)) =~= exe_views(v).insert(j, (x.0@, x.1)));
}

/// Sorted copy of `v`, in `str` order.
pub fn sort_names(v: &Vec<String>) -> (r: Vec<String>)
    ensures
        string_views(r@) == string_views(v@).sort_by(name_order()),
{
    proof {
        lemma_name_order_total();
    }
    let mut out: Vec<String> = Vec::new();
    let mut i: usize = 0;
    while i < v.len()
        invariant
            i <= v@.len(),
            total_ordering(name_order()),
            sorted_by(string_views(out@), name_order()),
            string_views(out@).to_multiset() == string_views(v@).take(i as int).to_multiset(),
        decreases v@.len() - i,
    {
        let x = v[i].clone();
        let xc = chars_of(x.as_str());
        let mut j: usize = 0;
        while j < out.len() && !seq_lt_exec(xc.as_slice(), chars_of(out[j].as_str()).as_slice())
            invariant
                j <= out@.len(),
                xc@ == x@,
                forall|k: int| 0 <= k < j ==> name_le(#[trigger] out@[k]@, x@),
            decreases out@.len() - j,
        {
            j = j + 1;
        }
        let ghost before = out@;
        out.insert(j, x);
        proof {
            lemma_views_insert(before, j as int, x);
            let sv = string_views(out@);
            let sb = string_views(before);
            assert forall|a: int, b: int| 0 <= a < b < sv.len() implies #[trigger] name_order()(
                sv[a],
                sv[b],
            ) by {
                if b < j {
                    assert(name_order()(sb[a], sb[b]));
                } else if a > j {
                    assert(name_order()(sb[a - 1], sb[b - 1]));
                } else if a == j {
                    // x is smaller than before[j], which is no later than before[b - 1]
                    assert(seq_lt(x@, before[j as int]@));
                    lemma_lt_asymmetric(x@, before[j as int]@);
                    assert(name_order()(x@, sb[j as int]));
                    if b - 1 > j {
                        assert(name_order()(sb[j as int], sb[b - 1]));
                    }
                } else {
                    assert(name_le(before[a]@, x@));
                }
            }
            assert(string_views(v@).take(i + 1) =~= string_views(v@).take(i as int).push(x@));
        }
        i = i + 1;
    }
    proof {
        assert(string_views(v@).take(v@.len() as int) =~= string_views(v@));
        string_views(v@).lemma_sort_by_ensures(name_order());
        vstd::seq_lib::lemma_sorted_unique(
            string_views(out@),
            string_views(v@).sort_by(name_order()),
            name_order(),
        );
    }
    out
}

/// Sorted copy of `v`: largest size first, equal sizes in `str` order of
/// their names.
pub fn sort_exes(v: &Vec<(String, u64)>) -> (r: Vec<(String, u64)>)
    ensures
        exe_views(r@) == exe_views(v@).sort_by(exe_order()),
{
    proof {
        lemma_exe_order_total();
    }
    let mut out: Vec<(String, u64)> = Vec::new();
    let mut i: usize = 0;
    while i < v.len()
        invariant
            i <= v@.len(),
            total_ordering(exe_order()),
            sorted_by(exe_views(out@), exe_order()),
            exe_views(out@).to_multiset() == exe_views(v@).take(i as int).to_multiset(),
        decreases v@.len() - i,
    {
        let x = (v[i].0.clone(), v[i].1);
        let xc = chars_of(x.0.as_str());
        let mut j: usize = 0;
        while j < out.len() && !(x.1 > out[j].1 || (x.1 == out[j].1 && seq_lt_exec(
            xc.as_slice(),
            chars_of(out[j].0.as_str()).as_slice(),
        )))
            invariant
                j <= out@.len(),
                xc@ == x.0@,
                forall|k: int| 0 <= k < j ==> exe_le(#[trigger] exe_views(out@)[k], (x.0@, x.1)),
            decreases out@.len() - j,
        {
            proof {
                lemma_lt_trichotomy(xc@, out@[j as int].0@);
                lemma_lt_asymmetric(xc@, out@[j as int].0@);
            }
            j = j + 1;
        }
        let ghost before = out@;
        let ghost xv = (x.0@, x.1);
        proof {
            if j < before.len() {
                lemma_lt_asymmetric(x.0@, before[j as int].0@);
                assert(exe_le(xv, exe_views(before)[j as int]));
            }
        }
        out.insert(j, x);
        proof {
            lemma_exe_views_insert(before, j as int, x);
            let sv = exe_views(out@);
            let sb = exe_views(before);
            assert forall|a: int, b: int| 0 <= a < b < sv.len() implies #[trigger] exe_order()(
                sv[a],
                sv[b],
            ) by {
                if b < j {
                    assert(exe_order()(sb[a], sb[b]));
                } else if a > j {
                    assert(exe_order()(sb[a - 1], sb[b - 1]));
                } else if a == j {
                    assert(exe_order()(xv, sb[j as int]));
                    if b - 1 > j {
                        assert(exe_order()(sb[j as int], sb[b - 1]));
                    }
                } else {
                    assert(exe_le(sb[a], xv));
                }
            }
            assert(exe_views(v@).take(i + 1) =~= exe_views(v@).take(i as int).push(xv));
        }
        i = i + 1;
    }
    proof {
        assert(exe_views(v@).take(v@.len() as int) =~= exe_views(v@));
        exe_views(v@).lemma_sort_by_ensures(exe_order());
        vstd::seq_lib::lemma_sorted_unique(
            exe_views(out@),
            exe_views(v@).sort_by(exe_order()),
            exe_order(),
        );
    }
    out
}

/// Lexicographic order on sequences of names, each compared in `str`
/// order (a proper prefix sorts first).
pub open spec fn names_lt(a: Seq<Seq<char>>, b: Seq<Seq<char>>) -> bool
    decreases a.len(),
{
    if b.len() == 0 {
        false
    } else if a.len() == 0 {
        true
    } else if a[0] != b[0] {
        seq_lt(a[0], b[0])
    } else {
        names_lt(a.drop_first(), b.drop_first())
    }
}

proof fn lemma_names_facts(a: Seq<Seq<char>>, b: Seq<Seq<char>>, c: Seq<Seq<char>>)
    ensures
        !names_lt(a, a),
        a == b || names_lt(a, b) || names_lt(b, a),
        names_lt(a, b) ==> !names_lt(b, a),
        names_lt(a, b) && names_lt(b, c) ==> names_lt(a, c),
    decreases a.len(),
{
    if a.len() > 0 && b.len() > 0 && c.len() > 0 {
        lemma_name_order_facts(a[0], b[0], c[0]);
        lemma_names_facts(a.drop_first(), b.drop_first(), c.drop_first());
        if a.drop_first() == b.drop_first() && a[0] == b[0] {
            assert(a =~= seq![a[0]] + a.drop_first());
            assert(b =~= seq![b[0]] + b.drop_first());
        }
    } else if a.len() > 0 && b.len() > 0 {
        lemma_name_order_facts(a[0], b[0], b[0]);
        lemma_names_facts(a.drop_first(), b.drop_first(), b.drop_first());
        if a.drop_first() == b.drop_first() && a[0] == b[0] {
            assert(a =~= seq![a[0]] + a.drop_first());
            assert(b =~= seq![b[0]] + b.drop_first());
        }
    } else if a.len() == 0 && b.len() == 0 {
        assert(a =~= b);
    }
    if a.len() > 0 {
        lemma_name_order_facts(a[0], a[0], a[0]);
        lemma_names_facts(a.drop_first(), a.drop_first(), a.drop_first());
    }
}

/// A sort key: a rank, then names, then the place in the input (so that
/// equal keys keep their input order).
pub type Key = (i32, Seq<Seq<char>>, int);

pub open spec fn key_le(a: Key, b: Key) -> bool {
    a.0 < b.0 || (a.0 == b.0 && (names_lt(a.1, b.1) || (a.1 == b.1 && a.2 <= b.2)))
}

pub open spec fn key_order() -> spec_fn(Key, Key) -> bool {
    |a: Key, b: Key| key_le(a, b)
}

pub proof fn lemma_key_order_total()
    ensures
        total_ordering(key_order()),
{
    assert forall|x: Key| #[trigger] key_order()(x, x) by {
        lemma_names_facts(x.1, x.1, x.1);
    }
    assert forall|x: Key, y: Key| #[trigger] key_order()(x, y) && #[trigger] key_order()(y, x) implies x == y by {
        lemma_names_facts(x.1, y.1, x.1);
        lemma_names_facts(y.1, x.1, y.1);
    }
    assert forall|x: Key, y: Key, z: Key| #[trigger] key_order()(x, y) && #[trigger] key_order()(y, z) implies key_order()(x, z) by {
        lemma_names_facts(x.1, y.1, z.1);
        lemma_names_facts(y.1, x.1, z.1);
    }
    assert forall|x: Key, y: Key| #[trigger] key_order()(x, y) || #[trigger] key_order()(y, x) by {
        lemma_names_facts(x.1, y.1, x.1);
    }
}

/// The executable form of a [`Key`].
pub struct SortKey {
    pub rank: i32,
    pub names: Vec<String>,
    pub index: usize,
}

impl SortKey {
    pub open spec fn view(&self) -> Key {
        (self.rank, string_views(self.names@), self.index as int)
    }
}

pub open spec fn key_views<P>(v: Seq<(SortKey, P)>) -> Seq<Key> {
    v.map_values(|e: (SortKey, P)| e.0.view())
}

fn names_lt_exec(a: &Vec<String>, b: &Vec<String>) -> (r: bool)
    ensures
        r == names_lt(string_views(a@), string_views(b@)),
{
    let ghost av = string_views(a@);
    let ghost bv = string_views(b@);
    let mut i: usize = 0;
    assert(av.skip(0) =~= av);
    assert(bv.skip(0) =~= bv);
    while i < a.len() && i < b.len()
        invariant
            i <= a@.len(),
            i <= b@.len(),
            av == string_views(a@),
            bv == string_views(b@),
            names_lt(av, bv) == names_lt(av.skip(i as int), bv.skip(i as int)),
        decreases a@.len() - i,
    {
        assert(av.skip(i as int)[0] == a@[i as int]@);
        assert(bv.skip(i as int)[0] == b@[i as int]@);
        if a[i] != b[i] {
            let ca = chars_of(a[i].as_str());
            let cb = chars_of(b[i].as_str());
            return seq_lt_exec(ca.as_slice(), cb.as_slice());
        }
        assert(av.skip(i as int).drop_first() =~= av.skip(i + 1));
        assert(bv.skip(i as int).drop_first() =~= bv.skip(i + 1));
        i = i + 1;
    }
    i < b.len()
}

fn key_le_exec(a: &SortKey, b: &SortKey) -> (r: bool)
    ensures
        r == key_le(a.view(), b.view()),
{
    if a.rank != b.rank {
        return a.rank < b.rank;
    }
    if names_lt_exec(&a.names, &b.names) {
        return true;
    }
    if names_lt_exec(&b.names, &a.names) {
        return false;
    }
    proof {
        lemma_names_facts(string_views(a.names@), string_views(b.names@), string_views(a.names@));
    }
    a.index <= b.index
}

/// `v` sorted by key, each key keeping what it carries.
pub fn sort_keyed<P>(v: Vec<(SortKey, P)>) -> (r: Vec<(SortKey, P)>)
    ensures
        key_views(r@) == key_views(v@).sort_by(key_order()),
        r@.len() == v@.len(),
        forall|q: int| 0 <= q < r@.len() ==> v@.contains(#[trigger] r@[q]),
{
    proof {
        lemma_key_order_total();
    }
    let ghost orig = v@;
    let mut v = v;
    let mut out: Vec<(SortKey, P)> = Vec::new();
    let mut i: usize = 0;
    while v.len() > 0
        invariant
            i + v@.len() == orig.len(),
            v@ == orig.skip(i as int),
            total_ordering(key_order()),
            sorted_by(key_views(out@), key_order()),
            key_views(out@).to_multiset() == key_views(orig).take(i as int).to_multiset(),
            out@.len() == i,
            forall|q: int| 0 <= q < out@.len() ==> orig.take(i as int).contains(#[trigger] out@[q]),
        decreases v@.len(),
    {
        let x = v.remove(0);
        assert(x == orig[i as int]);
        assert(v@ =~= orig.skip(i + 1));
        let ghost xv = x.0.view();
        let mut j: usize = 0;
        while j < out.len() && key_le_exec(&out[j].0, &x.0)
            invariant
                j <= out@.len(),
                xv == x.0.view(),
                forall|k: int| 0 <= k < j ==> key_le(#[trigger] key_views(out@)[k], xv),
            decreases out@.len() - j,
        {
            j = j + 1;
        }
        let ghost before = out@;
        proof {
            if j < before.len() {
                assert(!key_order()(key_views(before)[j as int], xv));
                assert(key_order()(xv, key_views(before)[j as int]));
            }
        }
        out.insert(j, x);
        proof {
            assert(key_views(out@) =~= key_views(before).insert(j as int, xv));
            let sv = key_views(out@);
            let sb = key_views(before);
            assert forall|a: int, b: int| 0 <= a < b < sv.len() implies #[trigger] key_order()(sv[a], sv[b]) by {
                if b < j {
                    assert(key_order()(sb[a], sb[b]));
                } else if a > j {
                    assert(key_order()(sb[a - 1], sb[b - 1]));
                } else if a == j {
                    assert(key_order()(xv, sb[j as int]));
                    if b - 1 > j {
                        assert(key_order()(sb[j as int], sb[b - 1]));
                    }
                } else {
                    assert(key_order()(sb[a], xv));
                }
            }
            assert(key_views(orig).take(i + 1) =~= key_views(orig).take(i as int).push(xv));
            vstd::seq_lib::to_multiset_build(key_views(orig).take(i as int), xv);
            vstd::seq_lib::to_multiset_insert(key_views(before), j as int, xv);
            assert forall|q: int| 0 <= q < out@.len() implies orig.take(i + 1).contains(#[trigger] out@[q]) by {
                if q < j {
                    assert(out@[q] == before[q]);
                    assert(orig.take(i as int).contains(before[q]));
                    let w = choose|w: int| 0 <= w < i && orig.take(i as int)[w] == before[q];
                    assert(orig.take(i + 1)[w] == before[q]);
                } else if q > j {
                    assert(out@[q] == before[q - 1]);
                    assert(orig.take(i as int).contains(before[q - 1]));
                    let w = choose|w: int| 0 <= w < i && orig.take(i as int)[w] == before[q - 1];
                    assert(orig.take(i + 1)[w] == before[q - 1]);
                } else {
                    assert(orig.take(i + 1)[i as int] == x);
                }
            }
        }
        assert(out.len() == i + 1);
        i = out.len();
    }
    proof {
        assert(orig.take(orig.len() as int) =~= orig);
        assert(key_views(orig).take(orig.len() as int) =~= key_views(orig));
        key_views(orig).lemma_sort_by_ensures(key_order());
        vstd::seq_lib::lemma_sorted_unique(key_views(out@), key_views(orig).sort_by(key_order()), key_order());
    }
    out
}

/// What each key carries, after sorting: when every key's index picks
/// its payload through `f`, the sorted payloads are `f` of the sorted
/// indices.
pub proof fn lemma_sorted_payload<P>(orig: Seq<(SortKey, P)>, sorted: Seq<(SortKey, P)>, f: spec_fn(int) -> P)
    requires
        forall|w: int| 0 <= w < orig.len() ==> (#[trigger] orig[w]).1 == f(orig[w].0.view().2),
        forall|q: int| 0 <= q < sorted.len() ==> orig.contains(#[trigger] sorted[q]),
    ensures
        forall|q: int| 0 <= q < sorted.len() ==> (#[trigger] sorted[q]).1 == f(key_views(sorted)[q].2),
{
    assert forall|q: int| 0 <= q < sorted.len() implies (#[trigger] sorted[q]).1 == f(key_views(sorted)[q].2) by {
        assert(orig.contains(sorted[q]));
        let w = choose|w: int| 0 <= w < orig.len() && orig[w] == sorted[q];
        assert(orig[w].1 == f(orig[w].0.view().2));
    }
}

/// The payloads of `v`, in order.
pub fn strip_keys<P>(v: Vec<(SortKey, P)>) -> (r: Vec<P>)
    ensures
        r@.len() == v@.len(),
        forall|q: int| 0 <= q < v@.len() ==> #[trigger] r@[q] == v@[q].1,
{
    let ghost orig = v@;
    let mut v = v;
    let mut out: Vec<P> = Vec::new();
    while v.len() > 0
        invariant
            out@.len() + v@.len() == orig.len(),
            v@ == orig.skip(out@.len() as int),
            forall|q: int| 0 <= q < out@.len() ==> #[trigger] out@[q] == orig[q].1,
        decreases v@.len(),
    {
        let ghost k = out@.len();
        let pair = v.remove(0);
        assert(pair == orig[k as int]);
        assert(v@ =~= orig.skip(k as int + 1));
        out.push(pair.1);
    }
    out
}

} // verus!
