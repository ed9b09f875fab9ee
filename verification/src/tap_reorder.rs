//! Reordering subscribed taps by editing a text of `<priority> <tap-id>`
//! lines: the text offered for editing, reading the edited text back, and
//! applying it. Opening the editor and writing the manifest are the
//! program's work.

use vstd::prelude::*;
use vstd::relations::{sorted_by, total_ordering};
use crate::catalog::valid_id;
use crate::subscriptions::{has_id, ids_unique, priorities_unique, SubscriptionManifest, TapSubscription};
use crate::text::{
    chars_of, decimal, digit_char, lines, lines_exec, lines_from, owned, push_char, push_decimal, push_str,
    string_from, str_eq, strip_cr, trim, trim_end, trim_exec, trim_start, views, whitespace, words, words_exec,
    words_from, is_digit, is_lower,
};

verus! {

broadcast use vstd::seq_lib::group_to_multiset_ensures;

pub open spec fn prio_le(a: (u32, int), b: (u32, int)) -> bool {
    a.0 < b.0 || (a.0 == b.0 && a.1 <= b.1)
}

pub open spec fn prio_order() -> spec_fn((u32, int), (u32, int)) -> bool {
    |a: (u32, int), b: (u32, int)| prio_le(a, b)
}

proof fn lemma_prio_order_total()
    ensures
        total_ordering(prio_order()),
{
}

/// Each tap's priority with its place in the manifest.
pub open spec fn prio_keys(taps: Seq<TapSubscription>) -> Seq<(u32, int)> {
    Seq::new(taps.len(), |i: int| (taps[i].priority, i))
}

pub open spec fn key_pairs(v: Seq<(u32, usize)>) -> Seq<(u32, int)> {
    v.map_values(|p: (u32, usize)| (p.0, p.1 as int))
}

/// The places of the taps, by priority (equal priorities keep manifest
/// order).
fn priority_order(taps: &Vec<TapSubscription>) -> (r: Vec<(u32, usize)>)
    ensures
        key_pairs(r@) == prio_keys(taps@).sort_by(prio_order()),
{
    proof {
        lemma_prio_order_total();
    }
    let ghost keys = prio_keys(taps@);
    let mut out: Vec<(u32, usize)> = Vec::new();
    let mut i: usize = 0;
    while i < taps.len()
        invariant
            i <= taps@.len(),
            keys == prio_keys(taps@),
            total_ordering(prio_order()),
            sorted_by(key_pairs(out@), prio_order()),
            key_pairs(out@).to_multiset() == keys.take(i as int).to_multiset(),
            forall|k: int| 0 <= k < out@.len() ==> (#[trigger] out@[k]).1 < i,
        decreases taps@.len() - i,
    {
        let x = (taps[i].priority, i);
        let mut j: usize = 0;
        while j < out.len() && !(x.0 < out[j].0)
            invariant
                j <= out@.len(),
                forall|k: int| 0 <= k < j ==> (#[trigger] out@[k]).0 <= x.0,
            decreases out@.len() - j,
        {
            j = j + 1;
        }
        let ghost before = out@;
        out.insert(j, x);
        proof {
            let kb = key_pairs(before);
            let ko = key_pairs(out@);
            assert(ko =~= kb.insert(j as int, (x.0, x.1 as int)));
            assert forall|a: int, b: int| 0 <= a < b < ko.len() implies #[trigger] prio_order()(ko[a], ko[b]) by {
                if b < j {
                    assert(prio_order()(kb[a], kb[b]));
                } else if a > j {
                    assert(prio_order()(kb[a - 1], kb[b - 1]));
                } else if a == j {
                    assert(x.0 < before[j as int].0);
                    if b - 1 > j {
                        assert(prio_order()(kb[j as int], kb[b - 1]));
                    }
                } else {
                    assert(before[a].0 <= x.0);
                    assert(before[a].1 < i);
                }
            }
            assert(keys.take(i + 1) =~= keys.take(i as int).push((x.0, x.1 as int)));
        }
        i = i + 1;
    }
    proof {
        assert(keys.take(taps@.len() as int) =~= keys);
        keys.lemma_sort_by_ensures(prio_order());
        vstd::seq_lib::lemma_sorted_unique(key_pairs(out@), keys.sort_by(prio_order()), prio_order());
    }
    out
}

/// The three comment lines at the top of the text offered for editing.
pub open spec fn header_line_1() -> Seq<char> {
    "# Reliquaint tap priorities \u{2014} lower number wins in conflicts."@
}

pub open spec fn header_line_2() -> Seq<char> {
    "# Edit the priority (first column). One tap per line: <priority> <tap-id>"@
}

pub open spec fn header_line_3() -> Seq<char> {
    "# Lines starting with '#' and blank lines are ignored."@
}

/// The text offered for editing: three comment lines, then one
/// `<priority> <tap-id>` line per tap, lowest priority first.
pub open spec fn reorder_header() -> Seq<char> {
    header_line_1() + seq!['\n'] + header_line_2() + seq!['\n'] + header_line_3() + seq!['\n']
}

pub open spec fn tap_line(t: TapSubscription) -> Seq<char> {
    decimal(t.priority as nat) + seq![' '] + t.id@ + seq!['\n']
}

pub open spec fn lines_for(taps: Seq<TapSubscription>, order: Seq<(u32, int)>, n: int) -> Seq<char>
    decreases n,
{
    if n <= 0 {
        Seq::empty()
    } else {
        lines_for(taps, order, n - 1) + tap_line(taps[order[n - 1].1])
    }
}

pub open spec fn reorder_text_spec(taps: Seq<TapSubscription>) -> Seq<char> {
    let order = prio_keys(taps).sort_by(prio_order());
    reorder_header() + lines_for(taps, order, order.len() as int)
}

pub fn reorder_text(taps: &Vec<TapSubscription>) -> (r: String)
    ensures
        r@ == reorder_text_spec(taps@),
{
    let order = priority_order(taps);
    let ghost ov = key_pairs(order@);
    proof {
        let keys = prio_keys(taps@);
        lemma_prio_order_total();
        keys.lemma_sort_by_ensures(prio_order());
        assert forall|q: int| 0 <= q < ov.len() implies 0 <= (#[trigger] ov[q]).1 < taps@.len() by {
            assert(ov.to_multiset().count(ov[q]) > 0);
            assert(keys.to_multiset().count(ov[q]) > 0);
            assert(keys.contains(ov[q]));
        }
    }
    let mut r = owned("# Reliquaint tap priorities \u{2014} lower number wins in conflicts.");
    push_char(&mut r, '\n');
    push_str(&mut r, "# Edit the priority (first column). One tap per line: <priority> <tap-id>");
    push_char(&mut r, '\n');
    push_str(&mut r, "# Lines starting with '#' and blank lines are ignored.");
    push_char(&mut r, '\n');
    let mut q: usize = 0;
    while q < order.len()
        invariant
            q <= order@.len(),
            ov == key_pairs(order@),
            ov == prio_keys(taps@).sort_by(prio_order()),
            forall|k: int| 0 <= k < ov.len() ==> 0 <= (#[trigger] ov[k]).1 < taps@.len(),
            r@ == reorder_header() + lines_for(taps@, ov, q as int),
        decreases order@.len() - q,
    {
        let idx = order[q].1;
        assert(ov[q as int].1 == idx as int);
        let t = &taps[idx];
        push_decimal(&mut r, t.priority as u64);
        push_char(&mut r, ' ');
        push_str(&mut r, t.id.as_str());
        push_char(&mut r, '\n');
        q = q + 1;
        assert(r@ =~= reorder_header() + lines_for(taps@, ov, q as int));
    }
    r
}

/// The value of a string of decimal digits.
pub open spec fn digits_value(d: Seq<char>) -> int
    decreases d.len(),
{
    if d.len() == 0 {
        0
    } else {
        digits_value(d.drop_last()) * 10 + (d.last() as int - '0' as int)
    }
}

/// `u32::from_str`: an optional `+`, then one or more decimal digits whose
/// value fits in a `u32`.
pub open spec fn all_digits(d: Seq<char>) -> bool {
    forall|i: int| 0 <= i < d.len() ==> is_digit(#[trigger] d[i])
}

/// The digits of a number: the text without a leading `+`.
pub open spec fn digits_part(s: Seq<char>) -> Seq<char> {
    if s.len() > 0 && s[0] == '+' {
        s.drop_first()
    } else {
        s
    }
}

pub open spec fn parse_u32_spec(s: Seq<char>) -> Option<u32> {
    let d = digits_part(s);
    if d.len() == 0 || !all_digits(d) {
        None
    } else if digits_value(d) > u32::MAX {
        None
    } else {
        Some(digits_value(d) as u32)
    }
}

proof fn lemma_digits_value_nonneg(d: Seq<char>)
    requires
        forall|i: int| 0 <= i < d.len() ==> is_digit(#[trigger] d[i]),
    ensures
        digits_value(d) >= 0,
    decreases d.len(),
{
    if d.len() > 0 {
        assert(is_digit(d[d.len() - 1]));
        lemma_digits_value_nonneg(d.drop_last());
    }
}

pub fn parse_u32(s: &[char]) -> (r: Option<u32>)
    ensures
        r == parse_u32_spec(s@),
{
    let start: usize = if s.len() > 0 && s[0] == '+' { 1 } else { 0 };
    let ghost d = digits_part(s@);
    assert(d =~= s@.skip(start as int));
    if start == s.len() {
        return None;
    }
    let mut acc: u64 = 0;
    let mut i: usize = start;
    while i < s.len()
        invariant
            start <= i <= s@.len(),
            start < s@.len(),
            d == s@.skip(start as int),
            d == digits_part(s@),
            forall|k: int| 0 <= k < i - start ==> is_digit(#[trigger] d[k]),
            acc as int == digits_value(d.take(i - start)),
            acc <= u32::MAX,
        decreases s@.len() - i,
    {
        let c = s[i];
        assert(d[i - start] == c);
        if !('0' <= c && c <= '9') {
            assert(!is_digit(d[i - start]));
            assert(!all_digits(d));
            return None;
        }
        let v = (c as u64) - ('0' as u64);
        assert(d.take(i - start + 1).drop_last() =~= d.take(i - start));
        let next = acc * 10 + v;
        if next > 0xFFFF_FFFFu64 {
            proof {
                let t = d.take(i - start + 1);
                assert forall|k: int| 0 <= k < t.len() implies is_digit(#[trigger] t[k]) by {
                    assert(t[k] == d[k]);
                }
                lemma_value_grows(d, i - start + 1);
                assert(all_digits(d) ==> digits_value(d) > u32::MAX);
            }
            return None;
        }
        acc = next;
        i = i + 1;
    }
    assert(d.take(s@.len() - start) =~= d);
    assert(all_digits(d));
    Some(acc as u32)
}

proof fn lemma_value_grows(d: Seq<char>, n: int)
    requires
        0 <= n <= d.len(),
        forall|i: int| 0 <= i < d.len() ==> is_digit(#[trigger] d[i]) || true,
    ensures
        (forall|i: int| 0 <= i < d.len() ==> is_digit(#[trigger] d[i])) ==> digits_value(d) >= digits_value(d.take(n)),
    decreases d.len() - n,
{
    if (forall|i: int| 0 <= i < d.len() ==> is_digit(#[trigger] d[i])) && n < d.len() {
        lemma_value_grows(d, n + 1);
        assert(d.take(n + 1).drop_last() =~= d.take(n));
        let t = d.take(n);
        assert forall|i: int| 0 <= i < t.len() implies is_digit(#[trigger] t[i]) by {
            assert(t[i] == d[i]);
        }
        lemma_digits_value_nonneg(t);
        assert(is_digit(d[n]));
    } else if n == d.len() {
        assert(d.take(n) =~= d);
    }
}

} // verus!

verus! {

#[derive(Debug)]
pub enum ReorderError {
    /// A line that is not `<priority> <tap-id>`.
    BadLine { line: usize, text: String },
    BadPriority { line: usize, token: String },
    UnknownTap { line: usize, id: String },
    Duplicate { id: String },
    SharedPriority { priority: u32 },
}

pub enum ReorderErrView {
    BadLine(int, Seq<char>),
    BadPriority(int, Seq<char>),
    UnknownTap(int, Seq<char>),
    Duplicate(Seq<char>),
    SharedPriority(u32),
}

pub open spec fn err_view(e: ReorderError) -> ReorderErrView {
    match e {
        ReorderError::BadLine { line, text } => ReorderErrView::BadLine(line as int, text@),
        ReorderError::BadPriority { line, token } => ReorderErrView::BadPriority(line as int, token@),
        ReorderError::UnknownTap { line, id } => ReorderErrView::UnknownTap(line as int, id@),
        ReorderError::Duplicate { id } => ReorderErrView::Duplicate(id@),
        ReorderError::SharedPriority { priority } => ReorderErrView::SharedPriority(priority),
    }
}

pub open spec fn edited(acc: Seq<(Seq<char>, u32)>, id: Seq<char>) -> bool {
    exists|k: int| 0 <= k < acc.len() && (#[trigger] acc[k]).0 == id
}

/// Read the edited lines from line `k` on, `acc` holding the edits read so
/// far: blank lines and `#` comments are skipped; every other line must be
/// a priority and a subscribed tap id, each id at most once.
pub open spec fn parse_edits(
    ls: Seq<Seq<char>>,
    taps: Seq<TapSubscription>,
    k: int,
    acc: Seq<(Seq<char>, u32)>,
) -> Result<Seq<(Seq<char>, u32)>, ReorderErrView>
    decreases ls.len() - k,
{
    if k < 0 || k >= ls.len() {
        Ok(acc)
    } else {
        let t = trim(ls[k]);
        if t.len() == 0 || t[0] == '#' {
            parse_edits(ls, taps, k + 1, acc)
        } else {
            let w = words(t);
            if w.len() < 2 {
                Err(ReorderErrView::BadLine(k + 1, t))
            } else {
                match parse_u32_spec(w[0]) {
                    None => Err(ReorderErrView::BadPriority(k + 1, w[0])),
                    Some(p) => if !has_id(taps, w[1]) {
                        Err(ReorderErrView::UnknownTap(k + 1, w[1]))
                    } else if edited(acc, w[1]) {
                        Err(ReorderErrView::Duplicate(w[1]))
                    } else {
                        parse_edits(ls, taps, k + 1, acc.push((w[1], p)))
                    },
                }
            }
        }
    }
}

pub open spec fn edits_view(v: Seq<(String, u32)>) -> Seq<(Seq<char>, u32)> {
    v.map_values(|e: (String, u32)| (e.0@, e.1))
}

fn is_subscribed(taps: &Vec<TapSubscription>, id: &str) -> (r: bool)
    ensures
        r == has_id(taps@, id@),
{
    let mut i: usize = 0;
    while i < taps.len()
        invariant
            i <= taps@.len(),
            forall|k: int| 0 <= k < i ==> (#[trigger] taps@[k]).id@ != id@,
        decreases taps@.len() - i,
    {
        if str_eq(taps[i].id.as_str(), id) {
            return true;
        }
        i = i + 1;
    }
    false
}

fn is_edited(acc: &Vec<(String, u32)>, id: &str) -> (r: bool)
    ensures
        r == edited(edits_view(acc@), id@),
{
    let mut i: usize = 0;
    while i < acc.len()
        invariant
            i <= acc@.len(),
            forall|k: int| 0 <= k < i ==> edits_view(acc@)[k].0 != id@,
        decreases acc@.len() - i,
    {
        assert(edits_view(acc@)[i as int].0 == acc@[i as int].0@);
        if str_eq(acc[i].0.as_str(), id) {
            assert(edits_view(acc@)[i as int].0 == id@);
            return true;
        }
        i = i + 1;
    }
    false
}

/// The edits in the edited text, or the first problem in it.
pub fn parse_reorder(edited_text: &str, taps: &Vec<TapSubscription>) -> (r: Result<Vec<(String, u32)>, ReorderError>)
    ensures
        match r {
            Ok(v) => parse_edits(lines(edited_text@), taps@, 0, Seq::empty()) == Ok::<
                Seq<(Seq<char>, u32)>,
                ReorderErrView,
            >(edits_view(v@)),
            Err(e) => parse_edits(lines(edited_text@), taps@, 0, Seq::empty()) == Err::<
                Seq<(Seq<char>, u32)>,
                ReorderErrView,
            >(err_view(e)),
        },
{
    let ls = lines_exec(chars_of(edited_text).as_slice());
    let ghost lv = views(ls@);
    let mut acc: Vec<(String, u32)> = Vec::new();
    let mut k: usize = 0;
    assert(edits_view(acc@) =~= Seq::<(Seq<char>, u32)>::empty());
    while k < ls.len()
        invariant
            k <= ls@.len(),
            lv == views(ls@),
            lv == lines(edited_text@),
            parse_edits(lv, taps@, 0, Seq::empty()) == parse_edits(lv, taps@, k as int, edits_view(acc@)),
        decreases ls@.len() - k,
    {
        assert(lv[k as int] == ls@[k as int]@);
        let t = trim_exec(ls[k].as_slice());
        if t.len() == 0 || t[0] == '#' {
            k = k + 1;
            continue;
        }
        let w = words_exec(t.as_slice(), false);
        assert(views(w@) == words(t@));
        if w.len() < 2 {
            return Err(ReorderError::BadLine { line: k + 1, text: string_from(t.as_slice()) });
        }
        assert(views(w@)[0] == w@[0]@);
        assert(views(w@)[1] == w@[1]@);
        let id = string_from(w[1].as_slice());
        match parse_u32(w[0].as_slice()) {
            None => {
                return Err(ReorderError::BadPriority { line: k + 1, token: string_from(w[0].as_slice()) });
            },
            Some(p) => {
                if !is_subscribed(taps, id.as_str()) {
                    return Err(ReorderError::UnknownTap { line: k + 1, id });
                }
                if is_edited(&acc, id.as_str()) {
                    return Err(ReorderError::Duplicate { id });
                }
                let ghost before = acc@;
                acc.push((id, p));
                assert(edits_view(acc@) =~= edits_view(before).push((w@[1]@, p)));
            },
        }
        k = k + 1;
    }
    Ok(acc)
}

/// The priority the edits give `id`, if they mention it.
pub open spec fn lookup_edit(acc: Seq<(Seq<char>, u32)>, id: Seq<char>) -> Option<u32>
    decreases acc.len(),
{
    if acc.len() == 0 {
        None
    } else if acc.last().0 == id {
        Some(acc.last().1)
    } else {
        lookup_edit(acc.drop_last(), id)
    }
}

/// The taps with the edited priorities; taps the edits do not mention keep
/// theirs.
pub open spec fn applied(taps: Seq<TapSubscription>, edits: Seq<(Seq<char>, u32)>) -> Seq<TapSubscription> {
    Seq::new(taps.len(), |i: int| match lookup_edit(edits, taps[i].id@) {
        Some(p) => TapSubscription { priority: p, ..taps[i] },
        None => taps[i],
    })
}

/// The priority of the first tap that shares its priority with an
/// earlier one, checking taps from `k` on.
pub open spec fn first_shared(taps: Seq<TapSubscription>, k: int) -> Option<u32>
    decreases taps.len() - k,
{
    if k < 0 || k >= taps.len() {
        None
    } else if exists|j: int| 0 <= j < k && (#[trigger] taps[j]).priority == taps[k].priority {
        Some(taps[k].priority)
    } else {
        first_shared(taps, k + 1)
    }
}

fn lookup_exec(acc: &Vec<(String, u32)>, id: &str) -> (r: Option<u32>)
    ensures
        r == lookup_edit(edits_view(acc@), id@),
{
    let mut i: usize = acc.len();
    assert(edits_view(acc@).take(i as int) =~= edits_view(acc@));
    while i > 0
        invariant
            i <= acc@.len(),
            lookup_edit(edits_view(acc@), id@) == lookup_edit(edits_view(acc@).take(i as int), id@),
        decreases i,
    {
        let ghost t = edits_view(acc@).take(i as int);
        assert(t.drop_last() =~= edits_view(acc@).take(i - 1));
        assert(t.last() == (acc@[i - 1].0@, acc@[i - 1].1));
        if str_eq(acc[i - 1].0.as_str(), id) {
            return Some(acc[i - 1].1);
        }
        i = i - 1;
    }
    None
}

/// Apply an edited ordering: read the edits, give each named tap its new
/// priority, then refuse the result when two taps share a priority. On a
/// reading error the manifest is unchanged.
pub fn apply_reorder(manifest: &mut SubscriptionManifest, edited_text: &str) -> (r: Result<(), ReorderError>)
    ensures
        final(manifest).schema_version == old(manifest).schema_version,
        match parse_edits(lines(edited_text@), old(manifest).taps@, 0, Seq::empty()) {
            Err(e) => r matches Err(x) && err_view(x) == e && final(manifest).taps@ == old(manifest).taps@,
            Ok(edits) => final(manifest).taps@ == applied(old(manifest).taps@, edits) && match first_shared(
                applied(old(manifest).taps@, edits),
                0,
            ) {
                Some(p) => r matches Err(ReorderError::SharedPriority { priority }) && priority == p,
                None => r is Ok,
            },
        },
{
    let edits = parse_reorder(edited_text, &manifest.taps)?;
    let ghost ev = edits_view(edits@);
    let ghost start = manifest.taps@;
    let n = manifest.taps.len();
    let mut j: usize = 0;
    while j < n
        invariant
            n == manifest.taps@.len(),
            n == start.len(),
            manifest.schema_version == old(manifest).schema_version,
            start == old(manifest).taps@,
            ev == edits_view(edits@),
            j <= n,
            forall|q: int| 0 <= q < j ==> #[trigger] manifest.taps@[q] == applied(start, ev)[q],
            forall|q: int| j <= q < n ==> #[trigger] manifest.taps@[q] == start[q],
        decreases n - j,
    {
        match lookup_exec(&edits, manifest.taps[j].id.as_str()) {
            Some(p) => {
                let t = TapSubscription {
                    id: manifest.taps[j].id.clone(),
                    source: manifest.taps[j].source.clone(),
                    added_at: manifest.taps[j].added_at.clone(),
                    priority: p,
                };
                manifest.taps.set(j, t);
            },
            None => {},
        }
        j = j + 1;
    }
    assert(manifest.taps@ =~= applied(start, ev));
    let ghost fin = manifest.taps@;
    assert(parse_edits(lines(edited_text@), start, 0, Seq::empty()) == Ok::<Seq<(Seq<char>, u32)>, ReorderErrView>(ev));
    let mut k: usize = 0;
    while k < n
        invariant
            n == manifest.taps@.len(),
            fin == manifest.taps@,
            manifest.schema_version == old(manifest).schema_version,
            start == old(manifest).taps@,
            fin == applied(start, ev),
            parse_edits(lines(edited_text@), start, 0, Seq::empty()) == Ok::<Seq<(Seq<char>, u32)>, ReorderErrView>(ev),
            k <= n,
            first_shared(fin, 0) == first_shared(fin, k as int),
        decreases n - k,
    {
        let mut j: usize = 0;
        while j < k
            invariant
                n == manifest.taps@.len(),
                fin == manifest.taps@,
                manifest.schema_version == old(manifest).schema_version,
                start == old(manifest).taps@,
                fin == applied(start, ev),
                parse_edits(lines(edited_text@), start, 0, Seq::empty()) == Ok::<Seq<(Seq<char>, u32)>, ReorderErrView>(ev),
                first_shared(fin, 0) == first_shared(fin, k as int),
                j <= k < n,
                forall|q: int| 0 <= q < j ==> (#[trigger] fin[q]).priority != fin[k as int].priority,
            decreases k - j,
        {
            if manifest.taps[j].priority == manifest.taps[k].priority {
                assert(fin[j as int].priority == fin[k as int].priority);
                return Err(ReorderError::SharedPriority { priority: manifest.taps[k].priority });
            }
            j = j + 1;
        }
        k = k + 1;
    }
    Ok(())
}

impl ReorderError {
    /// The message shown for the error.
    pub fn message(&self) -> (r: String)
        ensures
            r@ == match self {
                ReorderError::BadLine { line, text } => "line "@ + decimal(*line as nat)
                    + ": expected '<priority> <tap-id>', got "@ + crate::text::debug_quoted(text@),
                ReorderError::BadPriority { line, token } => "line "@ + decimal(*line as nat) + ": "@
                    + crate::text::debug_quoted(token@) + " is not a valid priority"@,
                ReorderError::UnknownTap { line, id } => "line "@ + decimal(*line as nat) + ": unknown tap id "@
                    + crate::text::debug_quoted(id@),
                ReorderError::Duplicate { id } => "tap "@ + crate::text::debug_quoted(id@) + " listed more than once"@,
                ReorderError::SharedPriority { priority } => "priority "@ + decimal(*priority as nat)
                    + " is shared by more than one tap; no two taps may share a priority"@,
            },
    {
        match self {
            ReorderError::BadLine { line, text } => {
                let mut r = owned("line ");
                push_decimal(&mut r, *line as u64);
                push_str(&mut r, ": expected '<priority> <tap-id>', got ");
                crate::text::push_debug_quoted(&mut r, text.as_str());
                r
            },
            ReorderError::BadPriority { line, token } => {
                let mut r = owned("line ");
                push_decimal(&mut r, *line as u64);
                push_str(&mut r, ": ");
                crate::text::push_debug_quoted(&mut r, token.as_str());
                push_str(&mut r, " is not a valid priority");
                r
            },
            ReorderError::UnknownTap { line, id } => {
                let mut r = owned("line ");
                push_decimal(&mut r, *line as u64);
                push_str(&mut r, ": unknown tap id ");
                crate::text::push_debug_quoted(&mut r, id.as_str());
                r
            },
            ReorderError::Duplicate { id } => {
                let mut r = owned("tap ");
                crate::text::push_debug_quoted(&mut r, id.as_str());
                push_str(&mut r, " listed more than once");
                r
            },
            ReorderError::SharedPriority { priority } => {
                let mut r = owned("priority ");
                push_decimal(&mut r, *priority as u64);
                push_str(&mut r, " is shared by more than one tap; no two taps may share a priority");
                r
            },
        }
    }
}

} // verus!

verus! {

/// `l` followed by a line feed.
pub open spec fn nl(l: Seq<char>) -> Seq<char> {
    l + seq!['\n']
}

pub open spec fn no_newline(l: Seq<char>) -> bool {
    forall|i: int| 0 <= i < l.len() ==> #[trigger] l[i] != '\n'
}

pub open spec fn no_space(l: Seq<char>) -> bool {
    forall|i: int| 0 <= i < l.len() ==> !whitespace(#[trigger] l[i])
}

proof fn lemma_lines_append(x: Seq<char>, y: Seq<char>, cur: Seq<char>)
    requires
        x.len() > 0,
        x.last() == '\n',
    ensures
        lines_from(x + y, cur) == lines_from(x, cur) + lines(y),
    decreases x.len(),
{
    let xy = x + y;
    assert(xy[0] == x[0]);
    if x.len() == 1 {
        assert(xy.drop_first() =~= y);
        assert(x.drop_first() =~= Seq::<char>::empty());
        assert(lines_from(x.drop_first(), Seq::empty()) =~= Seq::<Seq<char>>::empty());
        assert(lines_from(x, cur) =~= seq![strip_cr(cur)]);
    } else {
        assert(xy.drop_first() =~= x.drop_first() + y);
        assert(x.drop_first().last() == x.last());
        if x[0] == '\n' {
            lemma_lines_append(x.drop_first(), y, Seq::empty());
            assert(lines_from(xy, cur) =~= lines_from(x, cur) + lines(y));
        } else {
            lemma_lines_append(x.drop_first(), y, cur.push(x[0]));
        }
    }
}

proof fn lemma_lines_one(l: Seq<char>, cur: Seq<char>)
    requires
        no_newline(l),
    ensures
        lines_from(nl(l), cur) == seq![strip_cr(cur + l)],
    decreases l.len(),
{
    let t = nl(l);
    if l.len() == 0 {
        assert(t =~= seq!['\n']);
        assert(t[0] == '\n');
        assert(t.drop_first() =~= Seq::<char>::empty());
        assert(cur + l =~= cur);
        assert(lines_from(Seq::<char>::empty(), Seq::<char>::empty()) =~= Seq::<Seq<char>>::empty());
        assert(lines_from(t, cur) == seq![strip_cr(cur)] + lines_from(t.drop_first(), Seq::empty()));
        assert(lines_from(t, cur) =~= seq![strip_cr(cur)]);
    } else {
        assert(t[0] == l[0]);
        assert(t.drop_first() =~= nl(l.drop_first()));
        lemma_lines_one(l.drop_first(), cur.push(l[0]));
        assert(cur.push(l[0]) + l.drop_first() =~= cur + l);
    }
}

proof fn lemma_words_run(a: Seq<char>, s: Seq<char>, cur: Seq<char>)
    requires
        no_space(a),
    ensures
        words_from(a + s, cur, false) == words_from(s, cur + a, false),
    decreases a.len(),
{
    if a.len() == 0 {
        assert(a + s =~= s);
        assert(cur + a =~= cur);
    } else {
        let t = a + s;
        assert(t[0] == a[0]);
        assert(!whitespace(a[0]));
        assert(t.drop_first() =~= a.drop_first() + s);
        lemma_words_run(a.drop_first(), s, cur.push(a[0]));
        assert(cur.push(a[0]) + a.drop_first() =~= cur + a);
    }
}

/// Two words with one space between them read back as those two words.
proof fn lemma_two_words(a: Seq<char>, b: Seq<char>)
    requires
        a.len() > 0,
        b.len() > 0,
        no_space(a),
        no_space(b),
    ensures
        words(a + seq![' '] + b) == seq![a, b],
{
    let t = a + (seq![' '] + b);
    assert(a + seq![' '] + b =~= t);
    lemma_words_run(a, seq![' '] + b, Seq::empty());
    assert(Seq::<char>::empty() + a =~= a);
    let sb = seq![' '] + b;
    assert(sb[0] == ' ');
    assert(whitespace(' '));
    assert(sb.drop_first() =~= b);
    assert(words_from(sb, a, false) == seq![a] + words_from(b, Seq::empty(), false));
    lemma_words_run(b, Seq::empty(), Seq::empty());
    assert(b + Seq::<char>::empty() =~= b);
    assert(Seq::<char>::empty() + b =~= b);
    assert(words_from(Seq::<char>::empty(), b, false) == seq![b]);
    assert(seq![a] + seq![b] =~= seq![a, b]);
}


proof fn lemma_digit_char(k: nat)
    requires
        k < 10,
    ensures
        is_digit(digit_char(k)),
        digit_char(k) as int - '0' as int == k,
{
}

/// The decimal representation of `n`: digits only, reading back as `n`.
proof fn lemma_decimal(n: nat)
    ensures
        decimal(n).len() > 0,
        all_digits(decimal(n)),
        digits_value(decimal(n)) == n,
    decreases n,
{
    if n < 10 {
        lemma_digit_char(n);
        let d = decimal(n);
        assert(d =~= seq![digit_char(n)]);
        assert(d.drop_last() =~= Seq::<char>::empty());
        assert(digits_value(Seq::<char>::empty()) == 0);
        assert(digits_value(d) == digits_value(d.drop_last()) * 10 + (d.last() as int - '0' as int));
    } else {
        lemma_decimal(n / 10);
        lemma_digit_char(n % 10);
        let d = decimal(n);
        assert(d == decimal(n / 10).push(digit_char(n % 10)));
        assert(d.drop_last() =~= decimal(n / 10));
        assert(all_digits(d)) by {
            assert forall|i: int| 0 <= i < d.len() implies is_digit(#[trigger] d[i]) by {
                if i < d.len() - 1 {
                    assert(d[i] == decimal(n / 10)[i]);
                }
            }
        }
        assert(d.last() == digit_char(n % 10));
        assert(digits_value(d) == digits_value(d.drop_last()) * 10 + (d.last() as int - '0' as int));
        assert(n == (n / 10) * 10 + n % 10);
    }
}

proof fn lemma_parse_decimal(p: u32)
    ensures
        parse_u32_spec(decimal(p as nat)) == Some(p),
{
    lemma_decimal(p as nat);
    let d = decimal(p as nat);
    assert(is_digit(d[0]));
    assert(digits_part(d) == d);
}


/// A tap's line of the offered text, without its line feed.
pub open spec fn tap_text(t: TapSubscription) -> Seq<char> {
    decimal(t.priority as nat) + seq![' '] + t.id@
}

proof fn lemma_tap_text(t: TapSubscription)
    requires
        valid_id(t.id@),
    ensures
        tap_line(t) == nl(tap_text(t)),
        no_newline(tap_text(t)),
        strip_cr(tap_text(t)) == tap_text(t),
        trim(tap_text(t)) == tap_text(t),
        tap_text(t).len() > 0,
        tap_text(t)[0] != '#',
        words(tap_text(t)) == seq![decimal(t.priority as nat), t.id@],
{
    let d = decimal(t.priority as nat);
    let id = t.id@;
    let l = tap_text(t);
    lemma_decimal(t.priority as nat);
    assert(tap_line(t) =~= nl(l));
    assert(no_space(d)) by {
        assert forall|i: int| 0 <= i < d.len() implies !whitespace(#[trigger] d[i]) by {
            assert(is_digit(d[i]));
        }
    }
    assert(no_space(id)) by {
        assert forall|i: int| 0 <= i < id.len() implies !whitespace(#[trigger] id[i]) by {
            assert(crate::catalog::is_id_char(id[i]));
        }
    }
    assert(no_newline(l)) by {
        assert forall|i: int| 0 <= i < l.len() implies #[trigger] l[i] != '\n' by {
            if i < d.len() {
                assert(l[i] == d[i]);
                assert(is_digit(d[i]));
            } else if i == d.len() {
                assert(l[i] == ' ');
            } else {
                assert(l[i] == id[i - d.len() - 1]);
                assert(crate::catalog::is_id_char(id[i - d.len() - 1]));
            }
        }
    }
    assert(l.last() == id.last());
    assert(is_lower(id.last()) || is_digit(id.last()));
    assert(l[0] == d[0]);
    assert(is_digit(d[0]));
    assert(trim_start(l) == l);
    assert(trim_end(l) == l);
    lemma_two_words(d, id);
}

/// The comment lines of the offered text: no line feed inside, and `#`
/// first once trimmed.
proof fn lemma_header_line(h: Seq<char>)
    requires
        h.len() > 0,
        h[0] == '#',
        !whitespace(h.last()),
        h.last() != '\r',
        no_newline(h),
    ensures
        strip_cr(h) == h,
        trim(h) == h,
{
    assert(trim_start(h) == h);
    assert(trim_end(h) == h);
}

proof fn lemma_header_lines()
    ensures
        no_newline(header_line_1()),
        no_newline(header_line_2()),
        no_newline(header_line_3()),
        strip_cr(header_line_1()) == header_line_1(),
        strip_cr(header_line_2()) == header_line_2(),
        strip_cr(header_line_3()) == header_line_3(),
        trim(header_line_1()) == header_line_1() && header_line_1().len() > 0 && header_line_1()[0] == '#',
        trim(header_line_2()) == header_line_2() && header_line_2().len() > 0 && header_line_2()[0] == '#',
        trim(header_line_3()) == header_line_3() && header_line_3().len() > 0 && header_line_3()[0] == '#',
{
    reveal_strlit("# Reliquaint tap priorities \u{2014} lower number wins in conflicts.");
    reveal_strlit("# Edit the priority (first column). One tap per line: <priority> <tap-id>");
    reveal_strlit("# Lines starting with '#' and blank lines are ignored.");
    lemma_header_line(header_line_1());
    lemma_header_line(header_line_2());
    lemma_header_line(header_line_3());
}


/// The places of the taps in the offered text.
pub open spec fn text_order(taps: Seq<TapSubscription>) -> Seq<(u32, int)> {
    prio_keys(taps).sort_by(prio_order())
}

/// The lines of the offered text below its comments.
pub open spec fn body_lines(taps: Seq<TapSubscription>, order: Seq<(u32, int)>, n: int) -> Seq<Seq<char>> {
    Seq::new(n as nat, |q: int| tap_text(taps[order[q].1]))
}

/// Every tap with its own priority, in the order of the offered text.
pub open spec fn own_edits(taps: Seq<TapSubscription>) -> Seq<(Seq<char>, u32)> {
    let order = text_order(taps);
    Seq::new(order.len(), |q: int| (taps[order[q].1].id@, taps[order[q].1].priority))
}

pub open spec fn ids_valid(taps: Seq<TapSubscription>) -> bool {
    forall|i: int| 0 <= i < taps.len() ==> valid_id(#[trigger] taps[i].id@)
}

/// Does some place of `order` hold tap `i`?
pub open spec fn listed_at(order: Seq<(u32, int)>, i: int) -> bool {
    exists|q: int| 0 <= q < order.len() && (#[trigger] order[q]).1 == i
}

/// The offered order lists every tap once, with its own priority.
proof fn lemma_text_order(taps: Seq<TapSubscription>)
    ensures
        text_order(taps).len() == taps.len(),
        forall|q: int| 0 <= q < taps.len() ==> 0 <= (#[trigger] text_order(taps)[q]).1 < taps.len()
            && text_order(taps)[q].0 == taps[text_order(taps)[q].1].priority,
        forall|a: int, b: int| 0 <= a < b < taps.len() ==> (#[trigger] text_order(taps)[a]).1
            != (#[trigger] text_order(taps)[b]).1,
        forall|i: int| 0 <= i < taps.len() ==> #[trigger] listed_at(text_order(taps), i),
{
    let keys = prio_keys(taps);
    let order = text_order(taps);
    lemma_prio_order_total();
    keys.lemma_sort_by_ensures(prio_order());
    assert(order.to_multiset() =~= keys.to_multiset());
    assert(order.to_multiset().len() == keys.to_multiset().len());
    assert(order.len() == keys.len());
    assert forall|q: int| 0 <= q < order.len() implies #[trigger] keys.contains(order[q]) by {
        assert(order.contains(order[q]));
        assert(order.to_multiset().count(order[q]) > 0);
    }
    assert(keys.no_duplicates()) by {
        assert forall|a: int, b: int| 0 <= a < keys.len() && 0 <= b < keys.len() && a != b implies keys[a] != keys[b] by {
            assert(keys[a].1 == a);
            assert(keys[b].1 == b);
        }
    }
    keys.lemma_multiset_has_no_duplicates();
    assert forall|x: (u32, int)| order.to_multiset().contains(x) implies order.to_multiset().count(x) == 1 by {
        assert(keys.to_multiset().contains(x));
    }
    order.lemma_multiset_has_no_duplicates_conv();
    assert forall|q: int| 0 <= q < taps.len() implies 0 <= (#[trigger] order[q]).1 < taps.len()
        && order[q].0 == taps[order[q].1].priority by {
        assert(keys.contains(order[q]));
        let k = choose|k: int| 0 <= k < keys.len() && keys[k] == order[q];
        assert(keys[k] == (taps[k].priority, k));
    }
    assert forall|a: int, b: int| 0 <= a < b < taps.len() implies (#[trigger] order[a]).1 != (#[trigger] order[b]).1 by {
        assert(keys.contains(order[a]));
        assert(keys.contains(order[b]));
        let ka = choose|k: int| 0 <= k < keys.len() && keys[k] == order[a];
        let kb = choose|k: int| 0 <= k < keys.len() && keys[k] == order[b];
        if order[a].1 == order[b].1 {
            assert(ka == kb);
            assert(order[a] == order[b]);
        }
    }
    assert forall|i: int| 0 <= i < taps.len() implies #[trigger] listed_at(order, i) by {
        assert(keys.contains(keys[i]));
        assert(keys.to_multiset().count(keys[i]) > 0);
        assert(order.to_multiset().count(keys[i]) > 0);
        assert(order.contains(keys[i]));
        let q = choose|q: int| 0 <= q < order.len() && order[q] == keys[i];
        assert(order[q].1 == i);
    }
}

proof fn lemma_body_lines(taps: Seq<TapSubscription>, order: Seq<(u32, int)>, n: int)
    requires
        0 <= n <= order.len(),
        forall|q: int| 0 <= q < n ==> 0 <= (#[trigger] order[q]).1 < taps.len() && valid_id(taps[order[q].1].id@),
    ensures
        lines(lines_for(taps, order, n)) == body_lines(taps, order, n),
    decreases n,
{
    if n == 0 {
        assert(lines_for(taps, order, 0) =~= Seq::<char>::empty());
        assert(lines(Seq::<char>::empty()) =~= Seq::<Seq<char>>::empty());
        assert(body_lines(taps, order, 0) =~= Seq::<Seq<char>>::empty());
    } else {
        let t = taps[order[n - 1].1];
        lemma_tap_text(t);
        lemma_body_lines(taps, order, n - 1);
        let prev = lines_for(taps, order, n - 1);
        lemma_lines_one(tap_text(t), Seq::empty());
        assert(Seq::<char>::empty() + tap_text(t) =~= tap_text(t));
        if n - 1 == 0 {
            assert(prev =~= Seq::<char>::empty());
            assert(prev + tap_line(t) =~= tap_line(t));
        } else {
            assert(tap_line(t).len() > 0);
            assert((prev + tap_line(t)).last() == '\n');
            assert(prev.len() > 0 && prev.last() == '\n') by {
                let t0 = taps[order[n - 2].1];
                assert(prev == lines_for(taps, order, n - 2) + tap_line(t0));
            }
            lemma_lines_append(prev, tap_line(t), Seq::empty());
        }
        assert(body_lines(taps, order, n) =~= body_lines(taps, order, n - 1).push(tap_text(t)));
    }
}

/// The lines of the offered text: the three comments, then one line per tap.
proof fn lemma_text_lines(taps: Seq<TapSubscription>)
    requires
        ids_valid(taps),
    ensures
        lines(reorder_text_spec(taps)) == seq![header_line_1(), header_line_2(), header_line_3()]
            + body_lines(taps, text_order(taps), taps.len() as int),
{
    let order = text_order(taps);
    lemma_text_order(taps);
    let n = taps.len() as int;
    lemma_body_lines(taps, order, n);
    lemma_header_lines();
    let b = lines_for(taps, order, order.len() as int);
    let (h1, h2, h3) = (header_line_1(), header_line_2(), header_line_3());
    assert(reorder_text_spec(taps) =~= nl(h1) + (nl(h2) + (nl(h3) + b)));
    lemma_lines_one(h1, Seq::empty());
    lemma_lines_one(h2, Seq::empty());
    lemma_lines_one(h3, Seq::empty());
    assert(Seq::<char>::empty() + h1 =~= h1);
    assert(Seq::<char>::empty() + h2 =~= h2);
    assert(Seq::<char>::empty() + h3 =~= h3);
    lemma_lines_append(nl(h3), b, Seq::empty());
    lemma_lines_append(nl(h2), nl(h3) + b, Seq::empty());
    lemma_lines_append(nl(h1), nl(h2) + (nl(h3) + b), Seq::empty());
    assert(lines(reorder_text_spec(taps)) =~= seq![h1, h2, h3] + body_lines(taps, order, n));
}


/// Reading the tap lines from the `q`-th on, with the edits of the earlier
/// ones in hand, ends with every tap's own priority.
proof fn lemma_parse_body(taps: Seq<TapSubscription>, ls: Seq<Seq<char>>, q: int)
    requires
        ids_valid(taps),
        ids_unique(taps),
        ls.len() == 3 + taps.len(),
        forall|k: int| 0 <= k < taps.len() ==> #[trigger] ls[3 + k] == tap_text(taps[text_order(taps)[k].1]),
        0 <= q <= taps.len(),
    ensures
        parse_edits(ls, taps, 3 + q, own_edits(taps).take(q)) == Ok::<Seq<(Seq<char>, u32)>, ReorderErrView>(
            own_edits(taps),
        ),
    decreases taps.len() - q,
{
    let order = text_order(taps);
    let own = own_edits(taps);
    lemma_text_order(taps);
    if q == taps.len() {
        assert(own.take(q) =~= own);
    } else {
        let j = order[q].1;
        let t = taps[j];
        lemma_tap_text(t);
        lemma_parse_decimal(t.priority);
        let line = ls[3 + q];
        assert(line == tap_text(t));
        let w = words(trim(line));
        assert(w == seq![decimal(t.priority as nat), t.id@]);
        assert(taps[j].id@ == w[1]);
        assert(has_id(taps, w[1]));
        let acc = own.take(q);
        assert(!edited(acc, w[1])) by {
            if edited(acc, w[1]) {
                let k = choose|k: int| 0 <= k < acc.len() && (#[trigger] acc[k]).0 == w[1];
                assert(acc[k] == own[k]);
                assert(order[k].1 != order[q].1);
                assert(taps[order[k].1].id@ == taps[j].id@);
            }
        }
        assert(acc.push((w[1], t.priority)) =~= own.take(q + 1));
        lemma_parse_body(taps, ls, q + 1);
    }
}

proof fn lemma_lookup_found(acc: Seq<(Seq<char>, u32)>, id: Seq<char>, k: int)
    requires
        0 <= k < acc.len(),
        acc[k].0 == id,
    ensures
        exists|k2: int| 0 <= k2 < acc.len() && (#[trigger] acc[k2]).0 == id && lookup_edit(acc, id) == Some(acc[k2].1),
    decreases acc.len(),
{
    if acc.last().0 == id {
        assert(acc[acc.len() - 1].0 == id);
    } else {
        assert(k < acc.len() - 1);
        let d = acc.drop_last();
        assert(d[k] == acc[k]);
        lemma_lookup_found(d, id, k);
        let k2 = choose|k2: int| 0 <= k2 < d.len() && (#[trigger] d[k2]).0 == id && lookup_edit(d, id) == Some(d[k2].1);
        assert(acc[k2] == d[k2]);
    }
}

proof fn lemma_none_shared(taps: Seq<TapSubscription>, k: int)
    requires
        priorities_unique(taps),
        0 <= k,
    ensures
        first_shared(taps, k) is None,
    decreases taps.len() - k,
{
    if k < taps.len() {
        assert(!(exists|j: int| 0 <= j < k && (#[trigger] taps[j]).priority == taps[k].priority)) by {
            if exists|j: int| 0 <= j < k && (#[trigger] taps[j]).priority == taps[k].priority {
                let j = choose|j: int| 0 <= j < k && (#[trigger] taps[j]).priority == taps[k].priority;
                assert(taps[j].priority != taps[k].priority);
            }
        }
        lemma_none_shared(taps, k + 1);
    }
}

/// Saving the offered text unedited changes nothing: when the taps have
/// well-formed, distinct ids and distinct priorities, the text offered for
/// editing reads back as every tap with its own priority, applying those
/// edits gives back the same taps, and no two of them share a priority (so
/// [`apply_reorder`] accepts it and leaves the manifest as it was).
pub proof fn lemma_unedited_reorder_is_identity(taps: Seq<TapSubscription>)
    requires
        ids_valid(taps),
        ids_unique(taps),
        priorities_unique(taps),
    ensures
        parse_edits(lines(reorder_text_spec(taps)), taps, 0, Seq::empty()) == Ok::<
            Seq<(Seq<char>, u32)>,
            ReorderErrView,
        >(own_edits(taps)),
        applied(taps, own_edits(taps)) == taps,
        first_shared(applied(taps, own_edits(taps)), 0) is None,
{
    let order = text_order(taps);
    let own = own_edits(taps);
    lemma_text_order(taps);
    lemma_text_lines(taps);
    lemma_header_lines();
    let ls = lines(reorder_text_spec(taps));
    let n = taps.len() as int;
    assert(ls.len() == 3 + n);
    assert(ls[0] == header_line_1());
    assert(ls[1] == header_line_2());
    assert(ls[2] == header_line_3());
    assert forall|k: int| 0 <= k < taps.len() implies #[trigger] ls[3 + k] == tap_text(taps[order[k].1]) by {
        assert(ls[3 + k] == body_lines(taps, order, n)[k]);
    }
    assert(parse_edits(ls, taps, 0, Seq::empty()) == parse_edits(ls, taps, 1, Seq::empty()));
    assert(parse_edits(ls, taps, 1, Seq::empty()) == parse_edits(ls, taps, 2, Seq::empty()));
    assert(parse_edits(ls, taps, 2, Seq::empty()) == parse_edits(ls, taps, 3, Seq::empty()));
    assert(own.take(0) =~= Seq::<(Seq<char>, u32)>::empty());
    lemma_parse_body(taps, ls, 0);
    assert forall|i: int| 0 <= i < taps.len() implies #[trigger] applied(taps, own)[i] == taps[i] by {
        assert(listed_at(order, i));
        let q = choose|q: int| 0 <= q < order.len() && (#[trigger] order[q]).1 == i;
        assert(own[q].0 == taps[i].id@);
        lemma_lookup_found(own, taps[i].id@, q);
        let k2 = choose|k2: int| 0 <= k2 < own.len() && (#[trigger] own[k2]).0 == taps[i].id@
            && lookup_edit(own, taps[i].id@) == Some(own[k2].1);
        assert(taps[order[k2].1].id@ == taps[i].id@);
        assert(order[k2].1 == i);
        assert(own[k2].1 == taps[i].priority);
    }
    assert(applied(taps, own) =~= taps);
    lemma_none_shared(taps, 0);
}

} // verus!
