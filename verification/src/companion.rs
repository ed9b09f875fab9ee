//! Companion content: walkthroughs and images a tap ships beside its
//! catalog, under `companion/<game-id>/`, with optional one-level section
//! directories. Files are ordered by an optional numeric prefix (`01-`),
//! then by name, and titled from their file names.

use vstd::prelude::*;
use vstd::relations::{sorted_by, total_ordering};
use crate::order::{name_le, name_order, lemma_name_order_total};
use crate::text::{
    chars_of, extend_chars, is_digit, is_digit_exec, lower_seq, lower_vec, owned, push_char,
    push_str, rsplit_once, rsplit_once_exec, seq_eq, seq_lt, seq_lt_exec, slice_vec, string_from,
    string_views, uppercase_chars, char_uppercase, views,
};

verus! {

broadcast use vstd::seq_lib::group_to_multiset_ensures;

#[derive(Debug, Clone, Copy, PartialEq, Eq, Structural)]
pub enum CompanionKind {
    Markdown,
    Image,
}

#[derive(Debug, Clone, PartialEq, Eq)]
pub struct CompanionItem {
    pub tap_id: String,
    pub game_id: String,
    /// Path relative to the game's companion directory, `/`-separated.
    pub rel_path: String,
    pub title: String,
    pub kind: CompanionKind,
    /// The section directory holding the file; `None` at the game's root.
    pub section: Option<String>,
}

/// The extension of `name` (after its last `.`), ASCII-lowercased.
pub open spec fn lower_ext(name: Seq<char>) -> Option<Seq<char>> {
    match rsplit_once(name, '.') {
        Some(parts) => Some(lower_seq(parts.1)),
        None => None,
    }
}

pub open spec fn is_image_ext(e: Seq<char>) -> bool {
    e == "png"@ || e == "jpg"@ || e == "jpeg"@ || e == "gif"@ || e == "webp"@
}

pub open spec fn classify_spec(name: Seq<char>) -> Option<CompanionKind> {
    match lower_ext(name) {
        Some(e) => if e == "md"@ {
            Some(CompanionKind::Markdown)
        } else if is_image_ext(e) {
            Some(CompanionKind::Image)
        } else {
            None
        },
        None => None,
    }
}

fn eq_lit(v: &Vec<char>, lit: &str) -> (r: bool)
    ensures
        r == (v@ == lit@),
{
    let l = chars_of(lit);
    seq_eq(v.as_slice(), l.as_slice())
}

/// Markdown for `.md`, an image for `.png`, `.jpg`, `.jpeg`, `.gif` and
/// `.webp` (in any case); anything else is not companion content.
pub fn classify(filename: &str) -> (r: Option<CompanionKind>)
    ensures
        r == classify_spec(filename@),
{
    let cs = chars_of(filename);
    match rsplit_once_exec(cs.as_slice(), '.') {
        None => None,
        Some((_, ext)) => {
            let e = lower_vec(ext.as_slice());
            if eq_lit(&e, "md") {
                Some(CompanionKind::Markdown)
            } else if eq_lit(&e, "png") || eq_lit(&e, "jpg") || eq_lit(&e, "jpeg") || eq_lit(
                &e,
                "gif",
            ) || eq_lit(&e, "webp") {
                Some(CompanionKind::Image)
            } else {
                None
            }
        },
    }
}

/// Number of leading ASCII digits of `s`.
pub open spec fn leading_digits(s: Seq<char>) -> nat
    decreases s.len(),
{
    if s.len() > 0 && is_digit(s[0]) {
        1 + leading_digits(s.drop_first())
    } else {
        0
    }
}

pub open spec fn digit_value(c: char) -> nat {
    ((c as u32) - ('0' as u32)) as nat
}

/// The number written by the decimal digits `s`.
pub open spec fn digits_value(s: Seq<char>) -> nat
    decreases s.len(),
{
    if s.len() == 0 {
        0
    } else {
        digits_value(s.drop_last()) * 10 + digit_value(s.last())
    }
}

/// `str::parse::<u32>` on a run of digits: its value when it fits.
pub open spec fn parse_u32_spec(digits: Seq<char>) -> Option<u32> {
    if digits_value(digits) <= 0xffff_ffff {
        Some(digits_value(digits) as u32)
    } else {
        None
    }
}

/// A leading `<digits>-` or `<digits>_` stripped from `stem`, with the
/// number it held (`None` when it does not fit a `u32`); `stem` unchanged
/// and no number when there is no such prefix.
pub open spec fn strip_numeric_prefix_spec(stem: Seq<char>) -> (Seq<char>, Option<u32>) {
    let k = leading_digits(stem);
    if k == 0 {
        (stem, None)
    } else if k < stem.len() && (stem[k as int] == '-' || stem[k as int] == '_') {
        (stem.skip(k as int + 1), parse_u32_spec(stem.take(k as int)))
    } else {
        (stem, None)
    }
}

proof fn lemma_leading_digits(s: Seq<char>)
    ensures
        leading_digits(s) <= s.len(),
        forall|i: int| 0 <= i < leading_digits(s) ==> is_digit(#[trigger] s[i]),
        leading_digits(s) < s.len() ==> !is_digit(s[leading_digits(s) as int]),
    decreases s.len(),
{
    if s.len() > 0 && is_digit(s[0]) {
        lemma_leading_digits(s.drop_first());
        assert forall|i: int| 0 <= i < leading_digits(s) implies is_digit(#[trigger] s[i]) by {
            if i > 0 {
                assert(s[i] == s.drop_first()[i - 1]);
            }
        }
    }
}

proof fn lemma_leading_digits_prefix(s: Seq<char>, i: int)
    requires
        0 <= i <= s.len(),
        forall|j: int| 0 <= j < i ==> is_digit(#[trigger] s[j]),
        i < s.len() ==> !is_digit(s[i]),
    ensures
        leading_digits(s) == i,
    decreases i,
{
    if i > 0 {
        lemma_leading_digits_prefix(s.drop_first(), i - 1);
    }
}

/// `str::parse::<u32>` of a run of ASCII digits.
fn parse_digits(d: &[char]) -> (r: Option<u32>)
    requires
        forall|j: int| 0 <= j < d@.len() ==> is_digit(#[trigger] d@[j]),
    ensures
        r == parse_u32_spec(d@),
{
    let mut acc: u64 = 0;
    let mut overflow = false;
    let mut i: usize = 0;
    while i < d.len()
        invariant
            i <= d@.len(),
            forall|j: int| 0 <= j < d@.len() ==> is_digit(#[trigger] d@[j]),
            !overflow ==> acc == digits_value(d@.take(i as int)) && acc <= 0xffff_ffff,
            overflow ==> digits_value(d@.take(i as int)) > 0xffff_ffff,
        decreases d@.len() - i,
    {
        let c = d[i];
        assert(d@.take(i + 1).drop_last() =~= d@.take(i as int));
        assert(is_digit(c));
        let dv = (c as u32 - '0' as u32) as u64;
        assert(dv == digit_value(c));
        if !overflow {
            let next = acc * 10 + dv;
            if next > 0xffff_ffff {
                overflow = true;
            } else {
                acc = next;
            }
        } else {
            assert(digits_value(d@.take(i + 1)) >= digits_value(d@.take(i as int))) by (
            nonlinear_arith)
                requires
                    digits_value(d@.take(i + 1)) == digits_value(d@.take(i as int)) * 10
                        + digit_value(c),
            ;
        }
        i = i + 1;
    }
    assert(d@.take(d@.len() as int) =~= d@);
    if overflow {
        None
    } else {
        Some(acc as u32)
    }
}

/// Strip a leading `<digits>-` or `<digits>_` from `stem`, returning what is
/// left and the number (when it fits a `u32`).
pub fn strip_numeric_prefix(stem: &str) -> (r: (String, Option<u32>))
    ensures
        (r.0@, r.1) == strip_numeric_prefix_spec(stem@),
{
    let cs = chars_of(stem);
    let n = cs.len();
    let mut k: usize = 0;
    while k < n && is_digit_exec(cs[k])
        invariant
            n == cs@.len(),
            k <= n,
            forall|j: int| 0 <= j < k ==> is_digit(#[trigger] cs@[j]),
        decreases n - k,
    {
        k = k + 1;
    }
    proof {
        lemma_leading_digits_prefix(cs@, k as int);
    }
    if k == 0 {
        return (owned(stem), None);
    }
    if k < n && (cs[k] == '-' || cs[k] == '_') {
        let digits = slice_vec(cs.as_slice(), 0, k);
        assert(digits@ =~= cs@.take(k as int));
        let rest = slice_vec(cs.as_slice(), k + 1, n);
        assert(rest@ =~= cs@.skip(k + 1));
        let v = parse_digits(digits.as_slice());
        (string_from(rest.as_slice()), v)
    } else {
        (owned(stem), None)
    }
}

/// The pieces of `s` between `-` and `_` separators.
pub open spec fn pieces_from(s: Seq<char>, cur: Seq<char>) -> Seq<Seq<char>>
    decreases s.len(),
{
    if s.len() == 0 {
        seq![cur]
    } else if s[0] == '-' || s[0] == '_' {
        seq![cur] + pieces_from(s.drop_first(), Seq::empty())
    } else {
        pieces_from(s.drop_first(), cur.push(s[0]))
    }
}

/// `word` with its first character uppercased.
pub open spec fn capitalize_spec(word: Seq<char>) -> Seq<char> {
    if word.len() == 0 {
        Seq::empty()
    } else {
        char_uppercase(word[0]) + word.drop_first()
    }
}

/// The non-empty pieces, capitalized.
pub open spec fn title_words(pieces: Seq<Seq<char>>) -> Seq<Seq<char>>
    decreases pieces.len(),
{
    if pieces.len() == 0 {
        Seq::empty()
    } else if pieces.last().len() == 0 {
        title_words(pieces.drop_last())
    } else {
        title_words(pieces.drop_last()).push(capitalize_spec(pieces.last()))
    }
}

/// `words` joined with single spaces.
pub open spec fn join_spaces(words: Seq<Seq<char>>) -> Seq<char>
    decreases words.len(),
{
    if words.len() == 0 {
        Seq::empty()
    } else if words.len() == 1 {
        words[0]
    } else {
        join_spaces(words.drop_last()) + seq![' '] + words.last()
    }
}

pub open spec fn stem_of(name: Seq<char>) -> Seq<char> {
    match rsplit_once(name, '.') {
        Some(parts) => parts.0,
        None => name,
    }
}

pub open spec fn derive_title_spec(filename: Seq<char>) -> Seq<char> {
    join_spaces(
        title_words(pieces_from(strip_numeric_prefix_spec(stem_of(filename)).0, Seq::empty())),
    )
}

fn pieces_exec(s: &[char]) -> (r: Vec<Vec<char>>)
    ensures
        views(r@) == pieces_from(s@, Seq::empty()),
{
    let n = s.len();
    let mut out: Vec<Vec<char>> = Vec::new();
    let mut cur: Vec<char> = Vec::new();
    let mut i: usize = 0;
    assert(s@.skip(0) =~= s@);
    while i < n
        invariant
            n == s@.len(),
            i <= n,
            pieces_from(s@, Seq::empty()) == views(out@) + pieces_from(s@.skip(i as int), cur@),
        decreases n - i,
    {
        let ghost rest = s@.skip(i as int);
        assert(rest[0] == s@[i as int]);
        assert(rest.drop_first() =~= s@.skip(i + 1));
        if s[i] == '-' || s[i] == '_' {
            let ghost before = out@;
            let piece = cur;
            out.push(piece);
            assert(views(out@) =~= views(before).push(piece@));
            assert(views(out@) + pieces_from(s@.skip(i + 1), Seq::empty()) =~= views(before) + (
            seq![piece@] + pieces_from(s@.skip(i + 1), Seq::empty())));
            cur = Vec::new();
        } else {
            cur.push(s[i]);
        }
        i = i + 1;
    }
    let ghost before = out@;
    out.push(cur);
    assert(views(out@) =~= views(before).push(cur@));
    assert(s@.skip(n as int) =~= Seq::<char>::empty());
    assert(views(out@) =~= pieces_from(s@, Seq::empty()));
    out
}

/// `word` with its first character uppercased (as `char::to_uppercase`
/// maps it).
pub fn capitalize_word(word: &[char]) -> (r: Vec<char>)
    ensures
        r@ == capitalize_spec(word@),
{
    if word.len() == 0 {
        return Vec::new();
    }
    let mut r = uppercase_chars(word[0]);
    let rest = slice_vec(word, 1, word.len());
    assert(rest@ =~= word@.drop_first());
    extend_chars(&mut r, rest.as_slice());
    r
}

/// A display title from a file name: the extension and any numeric prefix
/// dropped, `-` and `_` read as word breaks, each word capitalized.
pub fn derive_title(filename: &str) -> (r: String)
    ensures
        r@ == derive_title_spec(filename@),
{
    let cs = chars_of(filename);
    let stem: Vec<char> = match rsplit_once_exec(cs.as_slice(), '.') {
        Some((s, _)) => s,
        None => cs,
    };
    let stem_s = string_from(stem.as_slice());
    let (without, _) = strip_numeric_prefix(stem_s.as_str());
    let wc = chars_of(without.as_str());
    let pieces = pieces_exec(wc.as_slice());
    let ghost pv = views(pieces@);
    let mut words: Vec<Vec<char>> = Vec::new();
    let mut i: usize = 0;
    while i < pieces.len()
        invariant
            i <= pieces@.len(),
            pv == views(pieces@),
            views(words@) == title_words(pv.take(i as int)),
        decreases pieces@.len() - i,
    {
        assert(pv.take(i + 1).drop_last() =~= pv.take(i as int));
        assert(pv[i as int] == pieces@[i as int]@);
        if pieces[i].len() > 0 {
            let w = capitalize_word(pieces[i].as_slice());
            let ghost before = words@;
            words.push(w);
            assert(views(words@) =~= views(before).push(w@));
        }
        i = i + 1;
    }
    assert(pv.take(pieces@.len() as int) =~= pv);
    let ghost wv = views(words@);
    let mut out: Vec<char> = Vec::new();
    let mut j: usize = 0;
    while j < words.len()
        invariant
            j <= words@.len(),
            wv == views(words@),
            out@ == join_spaces(wv.take(j as int)),
        decreases words@.len() - j,
    {
        assert(wv.take(j + 1).drop_last() =~= wv.take(j as int));
        assert(wv[j as int] == words@[j as int]@);
        if j > 0 {
            out.push(' ');
        } else {
            assert(wv.take(1) =~= seq![wv[0]]);
        }
        extend_chars(&mut out, words[j].as_slice());
        j = j + 1;
    }
    assert(wv.take(words@.len() as int) =~= wv);
    string_from(out.as_slice())
}

/// The order companion files are listed in: files with a numeric prefix
/// first, by that number, then the rest; within each, by lowercased name,
/// then by name.
pub open spec fn file_key_le(a: Seq<char>, b: Seq<char>) -> bool {
    let ka = strip_numeric_prefix_spec(a).1;
    let kb = strip_numeric_prefix_spec(b).1;
    let la = lower_seq(a);
    let lb = lower_seq(b);
    match (ka, kb) {
        (Some(x), None) => true,
        (None, Some(y)) => false,
        _ => {
            let xa: u32 = match ka {
                Some(x) => x,
                None => 0,
            };
            let xb: u32 = match kb {
                Some(y) => y,
                None => 0,
            };
            xa < xb || (xa == xb && (seq_lt(la, lb) || (la == lb && name_le(a, b))))
        },
    }
}

pub open spec fn file_order() -> spec_fn(Seq<char>, Seq<char>) -> bool {
    |a: Seq<char>, b: Seq<char>| file_key_le(a, b)
}

proof fn lemma_file_order_total()
    ensures
        total_ordering(file_order()),
{
    lemma_name_order_total();
    assert forall|x: Seq<char>| #[trigger] file_order()(x, x) by {
        assert(name_order()(x, x));
    }
    assert forall|x: Seq<char>, y: Seq<char>|
        #[trigger] file_order()(x, y) && #[trigger] file_order()(y, x) implies x == y by {
        crate::order::lemma_name_order_facts(lower_seq(x), lower_seq(y), lower_seq(x));
        assert(name_order()(x, y) && name_order()(y, x) ==> x == y);
    }
    assert forall|x: Seq<char>, y: Seq<char>, z: Seq<char>|
        #[trigger] file_order()(x, y) && #[trigger] file_order()(y, z) implies file_order()(
        x,
        z,
    ) by {
        crate::order::lemma_name_order_facts(lower_seq(x), lower_seq(y), lower_seq(z));
        assert(name_order()(x, y) && name_order()(y, z) ==> name_order()(x, z));
    }
    assert forall|x: Seq<char>, y: Seq<char>|
        #[trigger] file_order()(x, y) || #[trigger] file_order()(y, x) by {
        crate::order::lemma_name_order_facts(lower_seq(x), lower_seq(y), lower_seq(x));
        assert(name_order()(x, y) || name_order()(y, x));
    }
}

/// Exec form of [`file_key_le`].
fn file_key_le_exec(a: &String, b: &String) -> (r: bool)
    ensures
        r == file_key_le(a@, b@),
{
    let (_, ka) = strip_numeric_prefix(a.as_str());
    let (_, kb) = strip_numeric_prefix(b.as_str());
    let la = lower_vec(chars_of(a.as_str()).as_slice());
    let lb = lower_vec(chars_of(b.as_str()).as_slice());
    match (ka, kb) {
        (Some(_), None) => true,
        (None, Some(_)) => false,
        _ => {
            let xa: u32 = match ka {
                Some(x) => x,
                None => 0,
            };
            let xb: u32 = match kb {
                Some(y) => y,
                None => 0,
            };
            if xa != xb {
                return xa < xb;
            }
            if seq_lt_exec(la.as_slice(), lb.as_slice()) {
                return true;
            }
            if !seq_eq(la.as_slice(), lb.as_slice()) {
                return false;
            }
            let ca = chars_of(a.as_str());
            let cb = chars_of(b.as_str());
            !seq_lt_exec(cb.as_slice(), ca.as_slice())
        },
    }
}

/// Sorted copy of `v` in companion file order.
pub fn sort_files(v: &Vec<String>) -> (r: Vec<String>)
    ensures
        string_views(r@) == string_views(v@).sort_by(file_order()),
{
    proof {
        lemma_file_order_total();
    }
    let mut out: Vec<String> = Vec::new();
    let mut i: usize = 0;
    while i < v.len()
        invariant
            i <= v@.len(),
            total_ordering(file_order()),
            sorted_by(string_views(out@), file_order()),
            string_views(out@).to_multiset() == string_views(v@).take(i as int).to_multiset(),
        decreases v@.len() - i,
    {
        let x = v[i].clone();
        let mut j: usize = 0;
        while j < out.len() && file_key_le_exec(&out[j], &x)
            invariant
                j <= out@.len(),
                total_ordering(file_order()),
                forall|k: int| 0 <= k < j ==> file_key_le(#[trigger] out@[k]@, x@),
            decreases out@.len() - j,
        {
            j = j + 1;
        }
        let ghost before = out@;
        proof {
            if j < before.len() {
                assert(!file_order()(before[j as int]@, x@));
                assert(file_order()(x@, before[j as int]@));
            }
        }
        out.insert(j, x);
        proof {
            assert(string_views(out@) =~= string_views(before).insert(j as int, x@));
            let sv = string_views(out@);
            let sb = string_views(before);
            assert forall|a: int, b: int| 0 <= a < b < sv.len() implies #[trigger] file_order()(
                sv[a],
                sv[b],
            ) by {
                if b < j {
                    assert(file_order()(sb[a], sb[b]));
                } else if a > j {
                    assert(file_order()(sb[a - 1], sb[b - 1]));
                } else if a == j {
                    assert(file_order()(x@, sb[j as int]));
                    if b - 1 > j {
                        assert(file_order()(sb[j as int], sb[b - 1]));
                    }
                } else {
                    assert(file_order()(sb[a], x@));
                }
            }
            assert(string_views(v@).take(i + 1) =~= string_views(v@).take(i as int).push(x@));
        }
        i = i + 1;
    }
    proof {
        assert(string_views(v@).take(v@.len() as int) =~= string_views(v@));
        string_views(v@).lemma_sort_by_ensures(file_order());
        vstd::seq_lib::lemma_sorted_unique(
            string_views(out@),
            string_views(v@).sort_by(file_order()),
            file_order(),
        );
    }
    out
}

pub type ItemView = (Seq<char>, Seq<char>, Seq<char>, Seq<char>, CompanionKind, Option<Seq<char>>);

pub open spec fn opt_view(o: Option<String>) -> Option<Seq<char>> {
    match o {
        Some(s) => Some(s@),
        None => None,
    }
}

impl CompanionItem {
    /// (tap id, game id, relative path, title, kind, section).
    pub open spec fn view(&self) -> ItemView {
        (self.tap_id@, self.game_id@, self.rel_path@, self.title@, self.kind, opt_view(self.section))
    }
}

pub open spec fn item_views(v: Seq<CompanionItem>) -> Seq<ItemView> {
    v.map_values(|i: CompanionItem| i.view())
}

/// The names among `names` that are companion content, in order.
pub open spec fn companion_files(names: Seq<Seq<char>>) -> Seq<Seq<char>>
    decreases names.len(),
{
    if names.len() == 0 {
        Seq::empty()
    } else if classify_spec(names.last()) is Some {
        companion_files(names.drop_last()).push(names.last())
    } else {
        companion_files(names.drop_last())
    }
}

pub open spec fn kind_spec(name: Seq<char>) -> CompanionKind {
    match classify_spec(name) {
        Some(k) => k,
        None => CompanionKind::Markdown,
    }
}

pub open spec fn rel_in(section: Option<Seq<char>>, f: Seq<char>) -> Seq<char> {
    match section {
        Some(s) => s + seq!['/'] + f,
        None => f,
    }
}

/// One item per file of `files`, in that order.
pub open spec fn items_for(
    tap: Seq<char>,
    game: Seq<char>,
    section: Option<Seq<char>>,
    files: Seq<Seq<char>>,
) -> Seq<ItemView>
    decreases files.len(),
{
    if files.len() == 0 {
        Seq::empty()
    } else {
        items_for(tap, game, section, files.drop_last()).push(
            (
                tap,
                game,
                rel_in(section, files.last()),
                derive_title_spec(files.last()),
                kind_spec(files.last()),
                section,
            ),
        )
    }
}

/// A section directory of a game, with the names of the files in it.
pub struct SectionListing {
    pub name: String,
    pub files: Vec<String>,
}

pub open spec fn section_views(v: Seq<SectionListing>) -> Seq<(Seq<char>, Seq<Seq<char>>)> {
    v.map_values(|s: SectionListing| (s.name@, string_views(s.files@)))
}

/// The files listed for the first section named `name`.
pub open spec fn files_of(sections: Seq<(Seq<char>, Seq<Seq<char>>)>, name: Seq<char>) -> Seq<
    Seq<char>,
>
    decreases sections.len(),
{
    if sections.len() == 0 {
        Seq::empty()
    } else if sections[0].0 == name {
        sections[0].1
    } else {
        files_of(sections.drop_first(), name)
    }
}

pub open spec fn section_names(sections: Seq<(Seq<char>, Seq<Seq<char>>)>) -> Seq<Seq<char>> {
    sections.map_values(|s: (Seq<char>, Seq<Seq<char>>)| s.0)
}

/// The items of the sections named by `names`, section after section.
pub open spec fn sections_items(
    tap: Seq<char>,
    game: Seq<char>,
    names: Seq<Seq<char>>,
    sections: Seq<(Seq<char>, Seq<Seq<char>>)>,
) -> Seq<ItemView>
    decreases names.len(),
{
    if names.len() == 0 {
        Seq::empty()
    } else {
        sections_items(tap, game, names.drop_last(), sections) + items_for(
            tap,
            game,
            Some(names.last()),
            companion_files(files_of(sections, names.last())).sort_by(file_order()),
        )
    }
}

/// The companion items of one game: its root files in file order, then
/// each section in name order with its files in file order.
pub open spec fn index_game_spec(
    tap: Seq<char>,
    game: Seq<char>,
    root: Seq<Seq<char>>,
    sections: Seq<(Seq<char>, Seq<Seq<char>>)>,
) -> Seq<ItemView> {
    items_for(tap, game, None, companion_files(root).sort_by(file_order())) + sections_items(
        tap,
        game,
        section_names(sections).sort_by(name_order()),
        sections,
    )
}

fn companion_files_exec(names: &Vec<String>) -> (r: Vec<String>)
    ensures
        string_views(r@) == companion_files(string_views(names@)),
{
    let ghost nv = string_views(names@);
    let mut r: Vec<String> = Vec::new();
    let mut i: usize = 0;
    while i < names.len()
        invariant
            i <= names@.len(),
            nv == string_views(names@),
            string_views(r@) == companion_files(nv.take(i as int)),
        decreases names@.len() - i,
    {
        assert(nv.take(i + 1).drop_last() =~= nv.take(i as int));
        assert(nv[i as int] == names@[i as int]@);
        if classify(names[i].as_str()).is_some() {
            let ghost before = r@;
            r.push(names[i].clone());
            assert(string_views(r@) =~= string_views(before).push(names@[i as int]@));
        }
        i = i + 1;
    }
    assert(nv.take(names@.len() as int) =~= nv);
    r
}

/// Appends one item per file of `files` (companion files, in order).
fn push_items(
    out: &mut Vec<CompanionItem>,
    tap_id: &str,
    game_id: &str,
    section: &Option<String>,
    files: &Vec<String>,
)
    ensures
        item_views(final(out)@) == item_views(old(out)@) + items_for(
            tap_id@,
            game_id@,
            opt_view(*section),
            string_views(files@),
        ),
{
    let ghost start = item_views(out@);
    let ghost fv = string_views(files@);
    let mut i: usize = 0;
    while i < files.len()
        invariant
            i <= files@.len(),
            fv == string_views(files@),
            item_views(out@) == start + items_for(tap_id@, game_id@, opt_view(*section), fv.take(i as int)),
        decreases files@.len() - i,
    {
        assert(fv.take(i + 1).drop_last() =~= fv.take(i as int));
        assert(fv[i as int] == files@[i as int]@);
        let f = &files[i];
        let rel_path = match section {
            Some(s) => {
                let mut r = s.clone();
                push_char(&mut r, '/');
                push_str(&mut r, f.as_str());
                r
            },
            None => f.clone(),
        };
        let kind = match classify(f.as_str()) {
            Some(k) => k,
            None => CompanionKind::Markdown,
        };
        let item = CompanionItem {
            tap_id: owned(tap_id),
            game_id: owned(game_id),
            rel_path,
            title: derive_title(f.as_str()),
            kind,
            section: match section {
                Some(s) => Some(s.clone()),
                None => None,
            },
        };
        assert(item.rel_path@ =~= rel_in(opt_view(*section), f@));
        assert(item.view() == (tap_id@, game_id@, rel_in(opt_view(*section), fv[i as int]), derive_title_spec(fv[i as int]), kind_spec(fv[i as int]), opt_view(*section)));
        let ghost before = out@;
        out.push(item);
        assert(item_views(out@) =~= item_views(before).push(item.view()));
        assert(start + items_for(tap_id@, game_id@, opt_view(*section), fv.take(i + 1)) =~= start
            + items_for(tap_id@, game_id@, opt_view(*section), fv.take(i as int)).push(item.view()));
        i = i + 1;
    }
    assert(fv.take(files@.len() as int) =~= fv);
}

fn files_of_exec(sections: &Vec<SectionListing>, name: &String) -> (r: Vec<String>)
    ensures
        string_views(r@) == files_of(section_views(sections@), name@),
{
    let ghost sv = section_views(sections@);
    let mut i: usize = 0;
    assert(sv.skip(0) =~= sv);
    while i < sections.len()
        invariant
            i <= sections@.len(),
            sv == section_views(sections@),
            files_of(sv, name@) == files_of(sv.skip(i as int), name@),
        decreases sections@.len() - i,
    {
        assert(sv.skip(i as int)[0] == sv[i as int]);
        assert(sv.skip(i as int).drop_first() =~= sv.skip(i + 1));
        if sections[i].name == *name {
            return sections[i].files.clone();
        }
        i = i + 1;
    }
    Vec::new()
}

/// The companion items of the game `game_id` of tap `tap_id`, given the
/// names of the files at the game's companion root and, for each section
/// directory, the names of the files in it.
pub fn index_game(
    tap_id: &str,
    game_id: &str,
    root_files: &Vec<String>,
    sections: &Vec<SectionListing>,
) -> (r: Vec<CompanionItem>)
    ensures
        item_views(r@) == index_game_spec(
            tap_id@,
            game_id@,
            string_views(root_files@),
            section_views(sections@),
        ),
{
    let mut out: Vec<CompanionItem> = Vec::new();
    index_game_into(&mut out, tap_id, game_id, root_files, sections);
    assert(item_views(out@) =~= index_game_spec(
        tap_id@,
        game_id@,
        string_views(root_files@),
        section_views(sections@),
    ));
    out
}

fn index_game_into(
    out: &mut Vec<CompanionItem>,
    tap_id: &str,
    game_id: &str,
    root_files: &Vec<String>,
    sections: &Vec<SectionListing>,
)
    ensures
        item_views(final(out)@) == item_views(old(out)@) + index_game_spec(
            tap_id@,
            game_id@,
            string_views(root_files@),
            section_views(sections@),
        ),
{
    let ghost start = item_views(out@);
    let root = sort_files(&companion_files_exec(root_files));
    push_items(out, tap_id, game_id, &None, &root);
    let mut names: Vec<String> = Vec::new();
    let mut k: usize = 0;
    while k < sections.len()
        invariant
            k <= sections@.len(),
            string_views(names@) == section_names(section_views(sections@)).take(k as int),
        decreases sections@.len() - k,
    {
        assert(section_views(sections@)[k as int] == (sections@[k as int].name@, string_views(sections@[k as int].files@)));
        assert(section_names(section_views(sections@))[k as int] == sections@[k as int].name@);
        let ghost before = names@;
        names.push(sections[k].name.clone());
        assert(string_views(names@) =~= string_views(before).push(sections@[k as int].name@));
        assert(string_views(names@) =~= section_names(section_views(sections@)).take(k + 1));
        k = k + 1;
    }
    assert(section_names(section_views(sections@)).take(sections@.len() as int) =~= section_names(
        section_views(sections@),
    ));
    let sorted = crate::order::sort_names(&names);
    let ghost sn = string_views(sorted@);
    let ghost root_items = item_views(out@);
    assert(sn.take(0) =~= Seq::<Seq<char>>::empty());
    let mut j: usize = 0;
    while j < sorted.len()
        invariant
            j <= sorted@.len(),
            sn == string_views(sorted@),
            item_views(out@) == root_items + sections_items(
                tap_id@,
                game_id@,
                sn.take(j as int),
                section_views(sections@),
            ),
        decreases sorted@.len() - j,
    {
        assert(sn.take(j + 1).drop_last() =~= sn.take(j as int));
        assert(sn[j as int] == sorted@[j as int]@);
        let files = files_of_exec(sections, &sorted[j]);
        let chosen = sort_files(&companion_files_exec(&files));
        let section = Some(sorted[j].clone());
        let ghost mid = item_views(out@);
        push_items(out, tap_id, game_id, &section, &chosen);
        assert(item_views(out@) =~= root_items + sections_items(
            tap_id@,
            game_id@,
            sn.take(j + 1),
            section_views(sections@),
        ));
        j = j + 1;
    }
    assert(sn.take(sorted@.len() as int) =~= sn);
    assert(item_views(out@) =~= start + index_game_spec(
        tap_id@,
        game_id@,
        string_views(root_files@),
        section_views(sections@),
    ));
}

/// A game directory under a tap's `companion/`, as listed.
pub struct GameListing {
    pub game_id: String,
    pub root_files: Vec<String>,
    pub sections: Vec<SectionListing>,
}

pub open spec fn index_companion_spec(tap: Seq<char>, games: Seq<GameListing>) -> Seq<ItemView>
    decreases games.len(),
{
    if games.len() == 0 {
        Seq::empty()
    } else {
        index_companion_spec(tap, games.drop_last()) + index_game_spec(
            tap,
            games.last().game_id@,
            string_views(games.last().root_files@),
            section_views(games.last().sections@),
        )
    }
}

/// Every companion item of tap `tap_id`, game after game in the order
/// listed.
pub fn index_companion(tap_id: &str, games: &Vec<GameListing>) -> (r: Vec<CompanionItem>)
    ensures
        item_views(r@) == index_companion_spec(tap_id@, games@),
{
    let mut out: Vec<CompanionItem> = Vec::new();
    let mut i: usize = 0;
    while i < games.len()
        invariant
            i <= games@.len(),
            item_views(out@) == index_companion_spec(tap_id@, games@.take(i as int)),
        decreases games@.len() - i,
    {
        assert(games@.take(i + 1).drop_last() =~= games@.take(i as int));
        let g = &games[i];
        index_game_into(&mut out, tap_id, g.game_id.as_str(), &g.root_files, &g.sections);
        i = i + 1;
    }
    assert(games@.take(games@.len() as int) =~= games@);
    out
}

} // verus!
