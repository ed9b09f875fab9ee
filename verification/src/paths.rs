//! Path conventions. Paths are held as strings; joining, taking the parent
//! and the final component follow `std::path` on Unix for paths without
//! repeated `.` components.

use vstd::prelude::*;
use crate::text::{chars_of, split_exec, split_on, views, seq_eq, string_views, ends_with, last_index_exec, last_index_of, lemma_last_index_of, owned, push_str, slice_vec, string_from};

verus! {

/// `PathBuf::join` on Unix: an absolute `rel` replaces `base`; otherwise a
/// separator is put between them unless `base` is empty or already ends
/// with one.
pub open spec fn join_spec(base: Seq<char>, rel: Seq<char>) -> Seq<char> {
    if rel.len() > 0 && rel[0] == '/' {
        rel
    } else if base.len() == 0 {
        rel
    } else if base.last() == '/' {
        base + rel
    } else {
        base + seq!['/'] + rel
    }
}

pub fn join(base: &str, rel: &str) -> (r: String)
    ensures
        r@ == join_spec(base@, rel@),
{
    let b = chars_of(base);
    let r = chars_of(rel);
    if r.len() > 0 && r[0] == '/' {
        return owned(rel);
    }
    if b.len() == 0 {
        return owned(rel);
    }
    let mut out = owned(base);
    if b[b.len() - 1] != '/' {
        push_str(&mut out, "/");
        proof {
            reveal_strlit("/");
        }
    }
    push_str(&mut out, rel);
    out
}

/// `s` without trailing separators and trailing `.` components; a lone
/// root separator stays.
pub open spec fn trim_tail(s: Seq<char>) -> Seq<char>
    decreases s.len(),
{
    if s.len() > 1 && s.last() == '/' {
        trim_tail(s.drop_last())
    } else if s.len() >= 2 && s.last() == '.' && s[s.len() - 2] == '/' {
        trim_tail(s.drop_last())
    } else {
        s
    }
}

pub proof fn lemma_trim_tail(s: Seq<char>)
    ensures
        trim_tail(s).len() <= s.len(),
        trim_tail(s) == s.take(trim_tail(s).len() as int),
        s.len() > 0 ==> trim_tail(s).len() > 0,
    decreases s.len(),
{
    if s.len() > 1 && s.last() == '/' {
        lemma_trim_tail(s.drop_last());
        assert(s.drop_last().take(trim_tail(s).len() as int) =~= s.take(trim_tail(s).len() as int));
    } else if s.len() >= 2 && s.last() == '.' && s[s.len() - 2] == '/' {
        lemma_trim_tail(s.drop_last());
        assert(s.drop_last().take(trim_tail(s).len() as int) =~= s.take(trim_tail(s).len() as int));
    } else {
        assert(s.take(s.len() as int) =~= s);
    }
}

fn trim_tail_exec(s: &[char]) -> (r: Vec<char>)
    ensures
        r@ == trim_tail(s@),
{
    let mut j: usize = s.len();
    assert(s@.take(j as int) =~= s@);
    while j > 1 && (s[j - 1] == '/' || (s[j - 1] == '.' && s[j - 2] == '/'))
        invariant
            j <= s@.len(),
            trim_tail(s@) == trim_tail(s@.take(j as int)),
        decreases j,
    {
        assert(s@.take(j as int).drop_last() =~= s@.take(j - 1));
        j = j - 1;
    }
    let r = slice_vec(s, 0, j);
    assert(r@ =~= s@.take(j as int));
    r
}

/// `Path::parent`: the path without its final component; `None` for the
/// empty path and the root.
pub open spec fn parent_spec(p: Seq<char>) -> Option<Seq<char>> {
    let t = trim_tail(p);
    let i = last_index_of(t, '/');
    if t.len() == 0 || t == seq!['/'] {
        None
    } else if i < 0 {
        Some(Seq::empty())
    } else if i == 0 {
        Some(seq!['/'])
    } else {
        Some(trim_tail(t.take(i)))
    }
}

pub proof fn lemma_parent_shorter(p: Seq<char>)
    ensures
        parent_spec(p) matches Some(q) ==> q.len() < p.len(),
{
    let t = trim_tail(p);
    lemma_trim_tail(p);
    lemma_last_index_of(t, '/');
    let i = last_index_of(t, '/');
    if t.len() > 0 && t != seq!['/'] && i > 0 {
        lemma_trim_tail(t.take(i));
    }
    if t.len() == 1 && i == 0 {
        assert(t =~= seq!['/']);
    }
}

pub fn parent(p: &str) -> (r: Option<String>)
    ensures
        match r {
            Some(q) => parent_spec(p@) == Some(q@),
            None => parent_spec(p@) is None,
        },
{
    let s = chars_of(p);
    let t = trim_tail_exec(s.as_slice());
    proof {
        lemma_last_index_of(t@, '/');
    }
    if t.len() == 0 || (t.len() == 1 && t[0] == '/') {
        proof {
            if t@.len() == 1 {
                assert(t@ =~= seq!['/']);
            }
        }
        return None;
    }
    assert(t@ != seq!['/']);
    match last_index_exec(t.as_slice(), '/') {
        None => Some(String::new()),
        Some(i) => {
            if i == 0 {
                let mut r = String::new();
                crate::text::push_char(&mut r, '/');
                assert(r@ =~= seq!['/']);
                Some(r)
            } else {
                let head = slice_vec(t.as_slice(), 0, i);
                assert(head@ =~= t@.take(i as int));
                let h = trim_tail_exec(head.as_slice());
                Some(string_from(h.as_slice()))
            }
        },
    }
}

/// `Path::file_name`: the final component, unless the path ends in `..`,
/// is the root, or is empty.
pub open spec fn file_name_spec(p: Seq<char>) -> Option<Seq<char>> {
    let t = trim_tail(p);
    let name = t.skip(last_index_of(t, '/') + 1);
    if name.len() == 0 || name == seq!['.'] || name == seq!['.', '.'] {
        None
    } else {
        Some(name)
    }
}

pub fn file_name(p: &str) -> (r: Option<String>)
    ensures
        match r {
            Some(q) => file_name_spec(p@) == Some(q@),
            None => file_name_spec(p@) is None,
        },
{
    let s = chars_of(p);
    let t = trim_tail_exec(s.as_slice());
    proof {
        lemma_last_index_of(t@, '/');
    }
    let start = match last_index_exec(t.as_slice(), '/') {
        Some(i) => {
            assert(i < t@.len());
            assert(i < t.len());
            i + 1
        },
        None => 0,
    };
    let name = slice_vec(t.as_slice(), start, t.len());
    assert(name@ =~= t@.skip(last_index_of(t@, '/') + 1));
    if name.len() == 0 {
        return None;
    }
    if name.len() == 1 && name[0] == '.' {
        assert(name@ =~= seq!['.']);
        return None;
    }
    if name.len() == 2 && name[0] == '.' && name[1] == '.' {
        assert(name@ =~= seq!['.', '.']);
        return None;
    }
    assert(name@ != seq!['.']);
    assert(name@ != seq!['.', '.']);
    Some(string_from(name.as_slice()))
}

/// Resolve `relative` against the directory holding `manifest_path` (the
/// current directory when it has no parent).
pub fn resolve_relative(manifest_path: &str, relative: &str) -> (r: String)
    ensures
        r@ == join_spec(
            match parent_spec(manifest_path@) {
                Some(q) => q,
                None => seq!['.'],
            },
            relative@,
        ),
{
    match parent(manifest_path) {
        Some(base) => join(base.as_str(), relative),
        None => {
            proof {
                reveal_strlit(".");
            }
            join(".", relative)
        },
    }
}

/// Where the game `id` lives under a library directory.
pub fn games_dir(base: &str, id: &str) -> (r: String)
    ensures
        r@ == join_spec(base@, id@),
{
    join(base, id)
}

/// The tap inside a repository checkout.
pub fn tap_root(repo_root: &str) -> (r: String)
    ensures
        r@ == join_spec(repo_root@, "tap"@),
{
    join(repo_root, "tap")
}

/// The cache checkout of subscribed tap `tap_id`, under the taps cache
/// directory `taps_dir`.
pub fn tap_cache_dir_for(taps_dir: &str, tap_id: &str) -> (r: String)
    ensures
        r@ == join_spec(taps_dir@, tap_id@),
{
    join(taps_dir, tap_id)
}

/// Does shell tilde expansion apply to `p`: a leading `~` alone or followed
/// by a separator?
pub open spec fn tilde_form(p: Seq<char>) -> bool {
    p.len() > 0 && p[0] == '~' && (p.len() == 1 || p[1] == '/')
}

/// `shellexpand::tilde`. Its source replaces the leading `~` of a path in
/// tilde form by the home directory, when one is known, and otherwise
/// returns the input unchanged. The home directory comes from the
/// environment, so the contract says only that the result is the input, or,
/// for a path in tilde form, ends with everything after the `~`.
#[verifier::external_body]
pub fn expand_tilde(path: &str) -> (r: String)
    ensures
        !tilde_form(path@) ==> r@ == path@,
        tilde_form(path@) ==> (r@ == path@ || ends_with(r@, path@.skip(1))),
{
    shellexpand::tilde(path).into_owned()
}

/// The data directory: `$XDG_DATA_HOME` when set and non-empty, else
/// `~/.local/share`.
pub fn data_home_from_env(env: Option<&str>) -> (r: String)
    ensures
        match env {
            Some(v) => v@.len() > 0 ==> r@ == v@,
            None => true,
        },
        (env is None || env->0@.len() == 0) ==> ends_with(r@, "/.local/share"@),
{
    proof {
        reveal_strlit("~/.local/share");
        reveal_strlit("/.local/share");
    }
    match env {
        Some(v) => {
            if !v.is_empty() {
                return owned(v);
            }
        },
        None => {},
    }
    let r = expand_tilde("~/.local/share");
    assert("~/.local/share"@.skip(1) =~= "/.local/share"@);
    proof {
        if r@ == "~/.local/share"@ {
            assert(r@.skip(1) =~= "/.local/share"@);
        }
    }
    r
}

/// The configuration directory: `$XDG_CONFIG_HOME` when set and non-empty,
/// else `~/.config`.
pub fn config_home_from_env(env: Option<&str>) -> (r: String)
    ensures
        match env {
            Some(v) => v@.len() > 0 ==> r@ == v@,
            None => true,
        },
        (env is None || env->0@.len() == 0) ==> ends_with(r@, "/.config"@),
{
    proof {
        reveal_strlit("~/.config");
        reveal_strlit("/.config");
    }
    match env {
        Some(v) => {
            if !v.is_empty() {
                return owned(v);
            }
        },
        None => {},
    }
    let r = expand_tilde("~/.config");
    assert("~/.config"@.skip(1) =~= "/.config"@);
    proof {
        if r@ == "~/.config"@ {
            assert(r@.skip(1) =~= "/.config"@);
        }
    }
    r
}

/// `start` and each of its parents in turn, as `PathBuf::pop` walks them.
pub open spec fn ancestors(p: Seq<char>) -> Seq<Seq<char>>
    decreases p.len(),
{
    match parent_spec(p) {
        Some(q) => if q.len() < p.len() {
            seq![p] + ancestors(q)
        } else {
            seq![p]
        },
        None => seq![p],
    }
}

pub fn ancestors_exec(start: &str) -> (r: Vec<String>)
    ensures
        string_views(r@) == ancestors(start@),
    decreases start@.len(),
{
    let mut r: Vec<String> = Vec::new();
    r.push(owned(start));
    proof {
        lemma_parent_shorter(start@);
    }
    match parent(start) {
        Some(q) => {
            let rest = ancestors_exec(q.as_str());
            let ghost first = r@;
            let mut i: usize = 0;
            while i < rest.len()
                invariant
                    i <= rest@.len(),
                    r@.len() == 1 + i,
                    r@[0]@ == start@,
                    forall|k: int| 1 <= k < i + 1 ==> #[trigger] r@[k]@ == rest@[k - 1]@,
                decreases rest@.len() - i,
            {
                r.push(rest[i].clone());
                i = i + 1;
            }
            assert(string_views(rest@) == ancestors(q@));
            assert forall|k: int| 0 <= k < r@.len() implies #[trigger] string_views(r@)[k]
                == (seq![start@] + ancestors(q@))[k] by {
                if k >= 1 {
                    assert(string_views(rest@)[k - 1] == rest@[k - 1]@);
                }
            }
            assert(string_views(r@) =~= ancestors(start@));
        },
        None => {
            assert(string_views(r@) =~= ancestors(start@));
        },
    }
    r
}

/// The nearest of `start` and its parents that holds a repository, given
/// `has_marker[i]`: whether the `i`-th of them (in the order of
/// [`ancestors`]) holds `tap/tap.toml` or both `dos/` and `amiga/`.
pub fn find_repo_root(start: &str, has_marker: &Vec<bool>) -> (r: Option<String>)
    requires
        has_marker@.len() == ancestors(start@).len(),
    ensures
        match r {
            Some(root) => exists|i: int|
                0 <= i < has_marker@.len() && has_marker@[i] && root@ == ancestors(start@)[i]
                    && forall|j: int| 0 <= j < i ==> !has_marker@[j],
            None => forall|j: int| 0 <= j < has_marker@.len() ==> !has_marker@[j],
        },
{
    let all = ancestors_exec(start);
    assert(all@.len() == has_marker@.len()) by {
        assert(string_views(all@).len() == all@.len());
    }
    let mut i: usize = 0;
    while i < all.len()
        invariant
            string_views(all@) == ancestors(start@),
            all@.len() == has_marker@.len(),
            i <= all@.len(),
            forall|j: int| 0 <= j < i ==> !has_marker@[j],
        decreases all@.len() - i,
    {
        if has_marker[i] {
            let root = all[i].clone();
            assert(string_views(all@)[i as int] == all@[i as int]@);
            return Some(root);
        }
        i = i + 1;
    }
    None
}

/// `Path::extension`: the text after the last `.` of the final component,
/// unless that `.` starts the name.
pub open spec fn extension_spec(p: Seq<char>) -> Option<Seq<char>> {
    match file_name_spec(p) {
        None => None,
        Some(n) => {
            let i = last_index_of(n, '.');
            if i <= 0 {
                None
            } else {
                Some(n.skip(i + 1))
            }
        },
    }
}

pub fn extension(p: &str) -> (r: Option<String>)
    ensures
        match r {
            Some(e) => extension_spec(p@) == Some(e@),
            None => extension_spec(p@) is None,
        },
{
    match file_name(p) {
        None => None,
        Some(n) => {
            let cs = chars_of(n.as_str());
            proof {
                lemma_last_index_of(cs@, '.');
            }
            match last_index_exec(cs.as_slice(), '.') {
                None => None,
                Some(i) => {
                    if i == 0 {
                        None
                    } else {
                        assert(i < cs@.len());
                        assert(i < cs.len());
                        let e = slice_vec(cs.as_slice(), i + 1, cs.len());
                        assert(e@ =~= cs@.skip(i + 1));
                        Some(string_from(e.as_slice()))
                    }
                },
            }
        },
    }
}

/// Non-empty pieces other than `.`.
pub open spec fn normal_pieces(ps: Seq<Seq<char>>) -> Seq<Seq<char>>
    decreases ps.len(),
{
    if ps.len() == 0 {
        Seq::empty()
    } else if ps.last().len() > 0 && ps.last() != seq!['.'] {
        normal_pieces(ps.drop_last()).push(ps.last())
    } else {
        normal_pieces(ps.drop_last())
    }
}

/// The components of a path: the root (as `/`) when absolute, then its
/// non-empty pieces; `.` pieces are ignored.
pub open spec fn components(p: Seq<char>) -> Seq<Seq<char>> {
    (if p.len() > 0 && p[0] == '/' {
        seq![seq!['/']]
    } else {
        Seq::empty()
    }) + normal_pieces(split_on(p, '/'))
}

/// `Path::ends_with`: the components of `child` end those of `p`.
pub open spec fn path_ends_with(p: Seq<char>, child: Seq<char>) -> bool {
    let a = components(p);
    let b = components(child);
    b.len() <= a.len() && a.skip(a.len() - b.len()) == b
}

pub fn components_exec(p: &str) -> (r: Vec<Vec<char>>)
    ensures
        views(r@) == components(p@),
{
    let cs = chars_of(p);
    let pieces = split_exec(cs.as_slice(), '/');
    let ghost pv = views(pieces@);
    let mut out: Vec<Vec<char>> = Vec::new();
    let rooted = cs.len() > 0 && cs[0] == '/';
    if rooted {
        let mut root: Vec<char> = Vec::new();
        root.push('/');
        out.push(root);
    }
    let ghost head = views(out@);
    assert(head =~= (if p@.len() > 0 && p@[0] == '/' {
        seq![seq!['/']]
    } else {
        Seq::<Seq<char>>::empty()
    }));
    let mut i: usize = 0;
    while i < pieces.len()
        invariant
            i <= pieces@.len(),
            pv == views(pieces@),
            views(out@) == head + normal_pieces(pv.take(i as int)),
        decreases pieces@.len() - i,
    {
        assert(pv.take(i + 1).drop_last() =~= pv.take(i as int));
        assert(pv[i as int] == pieces@[i as int]@);
        let piece = &pieces[i];
        if piece.len() > 0 && !(piece.len() == 1 && piece[0] == '.') {
            assert(piece@ != seq!['.']);
            let ghost before = out@;
            out.push(piece.clone());
            assert(views(out@) =~= views(before).push(piece@));
        } else {
            assert(piece@.len() == 1 ==> piece@ =~= seq!['.']);
        }
        i = i + 1;
    }
    assert(pv.take(pieces@.len() as int) =~= pv);
    out
}

pub fn ends_with_path(p: &str, child: &str) -> (r: bool)
    ensures
        r == path_ends_with(p@, child@),
{
    let a = components_exec(p);
    let b = components_exec(child);
    if b.len() > a.len() {
        return false;
    }
    let off = a.len() - b.len();
    let mut k: usize = 0;
    while k < b.len()
        invariant
            a@.len() <= usize::MAX,
            views(a@) == components(p@),
            views(b@) == components(child@),
            off + b@.len() == a@.len(),
            k <= b@.len(),
            forall|j: int| 0 <= j < k ==> views(a@)[off + j] == views(b@)[j],
        decreases b@.len() - k,
    {
        assert(views(a@)[off + k] == a@[off + k]@);
        assert(views(b@)[k as int] == b@[k as int]@);
        if !seq_eq(a[off + k].as_slice(), b[k].as_slice()) {
            assert(views(a@).skip(off as int)[k as int] != views(b@)[k as int]);
            return false;
        }
        k = k + 1;
    }
    assert(views(a@).skip(off as int) =~= views(b@));
    true
}


/// The places a tap packaged beside the program may be, in the order they
/// are tried: `$APPDIR/usr/lib/<name>`, then `<directory of the
/// executable>/../lib/<name>`, each for `reliquaint` then `Reliquaint`.
pub open spec fn packaged_candidates_spec(appdir: Option<Seq<char>>, exe: Option<Seq<char>>) -> Seq<Seq<char>> {
    (match appdir {
        Some(a) => seq![
            join_spec(join_spec(a, "usr/lib"@), "reliquaint"@),
            join_spec(join_spec(a, "usr/lib"@), "Reliquaint"@),
        ],
        None => Seq::empty(),
    }) + (match exe {
        Some(e) => match parent_spec(e) {
            Some(b) => seq![
                join_spec(join_spec(b, "../lib"@), "reliquaint"@),
                join_spec(join_spec(b, "../lib"@), "Reliquaint"@),
            ],
            None => Seq::empty(),
        },
        None => Seq::empty(),
    })
}

pub fn packaged_root_candidates(appdir: Option<&str>, exe: Option<&str>) -> (r: Vec<String>)
    ensures
        string_views(r@) == packaged_candidates_spec(
            match appdir {
                Some(a) => Some(a@),
                None => None,
            },
            match exe {
                Some(e) => Some(e@),
                None => None,
            },
        ),
{
    let mut r: Vec<String> = Vec::new();
    match appdir {
        Some(a) => {
            let lib = join(a, "usr/lib");
            r.push(join(lib.as_str(), "reliquaint"));
            r.push(join(lib.as_str(), "Reliquaint"));
        },
        None => {},
    }
    let ghost first = string_views(r@);
    match exe {
        Some(e) => match parent(e) {
            Some(b) => {
                let lib = join(b.as_str(), "../lib");
                r.push(join(lib.as_str(), "reliquaint"));
                r.push(join(lib.as_str(), "Reliquaint"));
            },
            None => {},
        },
        None => {},
    }
    proof {
        let ap = match appdir {
            Some(a) => Some(a@),
            None => None::<Seq<char>>,
        };
        let ep = match exe {
            Some(e) => Some(e@),
            None => None::<Seq<char>>,
        };
        assert(string_views(r@) =~= packaged_candidates_spec(ap, ep));
    }
    r
}

/// The first candidate that holds a tap, given `has_tap[i]`: whether the
/// `i`-th candidate holds `tap/tap.toml`.
pub fn packaged_repo_root_from(candidates: &Vec<String>, has_tap: &Vec<bool>) -> (r: Option<String>)
    requires
        has_tap@.len() == candidates@.len(),
    ensures
        match r {
            Some(root) => exists|i: int|
                0 <= i < has_tap@.len() && has_tap@[i] && root@ == candidates@[i]@
                    && forall|j: int| 0 <= j < i ==> !has_tap@[j],
            None => forall|j: int| 0 <= j < has_tap@.len() ==> !has_tap@[j],
        },
{
    let mut i: usize = 0;
    while i < candidates.len()
        invariant
            has_tap@.len() == candidates@.len(),
            i <= candidates@.len(),
            forall|j: int| 0 <= j < i ==> !has_tap@[j],
        decreases candidates@.len() - i,
    {
        if has_tap[i] {
            return Some(candidates[i].clone());
        }
        i = i + 1;
    }
    None
}

} // verus!
