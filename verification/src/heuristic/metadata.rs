//! A starting id and title for a draft manifest, from the directory name.
//! Reading a README for better metadata is left to the user.

use vstd::prelude::*;
use crate::catalog::{is_valid_id, valid_id};
use crate::paths::{file_name, file_name_spec};
use crate::text::{
    chars_of, extend_chars, is_alnum, is_alnum_exec, lowercase_chars, char_lowercase, char_uppercase, string_from,
    trim, trim_char, trim_char_exec, trim_exec, uppercase_chars,
};

verus! {

#[derive(Debug, Clone, PartialEq, Eq)]
pub struct DraftMetadata {
    pub id: String,
    pub title: String,
}

impl DraftMetadata {
    pub open spec fn view(&self) -> (Seq<char>, Seq<char>) {
        (self.id@, self.title@)
    }
}

/// Characters a slug keeps: ASCII letters and digits, and hyphens.
pub open spec fn keep_slug(c: char) -> bool {
    is_alnum(c) || c == '-'
}

pub open spec fn slug_filter(s: Seq<char>) -> Seq<char>
    decreases s.len(),
{
    if s.len() == 0 {
        Seq::empty()
    } else if keep_slug(s.last()) {
        slug_filter(s.drop_last()).push(s.last())
    } else {
        slug_filter(s.drop_last())
    }
}

pub open spec fn dash_for_underscore(c: char) -> char {
    if c == '_' {
        '-'
    } else {
        c
    }
}

/// Each character lowercased (underscores read as hyphens), keeping only
/// what a slug may hold.
pub open spec fn slug_chars(s: Seq<char>) -> Seq<char>
    decreases s.len(),
{
    if s.len() == 0 {
        Seq::empty()
    } else {
        slug_chars(s.drop_last()) + slug_filter(char_lowercase(dash_for_underscore(s.last())))
    }
}

/// `s` with every hyphen that follows a hyphen dropped.
pub open spec fn collapse_dashes(s: Seq<char>) -> Seq<char>
    decreases s.len(),
{
    if s.len() == 0 {
        s
    } else if s.last() == '-' && s.len() >= 2 && s[s.len() - 2] == '-' {
        collapse_dashes(s.drop_last())
    } else {
        collapse_dashes(s.drop_last()).push(s.last())
    }
}

/// The id drawn from a directory name, or empty when what is left is not a
/// canonical id.
pub open spec fn slug_spec(basename: Seq<char>) -> Seq<char> {
    let t = trim_char(collapse_dashes(slug_chars(basename)), '-');
    if valid_id(t) {
        t
    } else {
        Seq::empty()
    }
}

/// Title case read one character at a time: `-` and `_` become single
/// spaces, and the first character of each word is uppercased.
pub open spec fn title_from(s: Seq<char>, out: Seq<char>, at_boundary: bool) -> Seq<char>
    decreases s.len(),
{
    if s.len() == 0 {
        out
    } else if s[0] == '-' || s[0] == '_' {
        title_from(
            s.drop_first(),
            if out.len() > 0 && out.last() == ' ' {
                out
            } else {
                out.push(' ')
            },
            true,
        )
    } else if at_boundary {
        title_from(s.drop_first(), out + char_uppercase(s[0]), false)
    } else {
        title_from(s.drop_first(), out.push(s[0]), false)
    }
}

pub open spec fn titlecase_spec(basename: Seq<char>) -> Seq<char> {
    trim(title_from(basename, Seq::empty(), true))
}

/// What [`extract`] gives for the directory `dir`.
pub open spec fn extract_spec_view(dir: Seq<char>) -> (Seq<char>, Seq<char>) {
    match file_name_spec(dir) {
        Some(b) => (slug_spec(b), titlecase_spec(b)),
        None => (Seq::empty(), Seq::empty()),
    }
}

fn slug_chars_exec(s: &[char]) -> (r: Vec<char>)
    ensures
        r@ == slug_chars(s@),
{
    let mut buf: Vec<char> = Vec::new();
    let mut i: usize = 0;
    while i < s.len()
        invariant
            i <= s@.len(),
            buf@ == slug_chars(s@.take(i as int)),
        decreases s@.len() - i,
    {
        let c = s[i];
        let mapped = if c == '_' {
            '-'
        } else {
            c
        };
        let lows = lowercase_chars(mapped);
        let ghost base = buf@;
        let mut j: usize = 0;
        while j < lows.len()
            invariant
                j <= lows@.len(),
                buf@ == base + slug_filter(lows@.take(j as int)),
            decreases lows@.len() - j,
        {
            let l = lows[j];
            assert(lows@.take(j + 1).drop_last() =~= lows@.take(j as int));
            if is_alnum_exec(l) || l == '-' {
                buf.push(l);
            }
            j = j + 1;
            assert(buf@ =~= base + slug_filter(lows@.take(j as int)));
        }
        assert(lows@.take(lows@.len() as int) =~= lows@);
        assert(s@.take(i + 1).drop_last() =~= s@.take(i as int));
        i = i + 1;
    }
    assert(s@.take(s@.len() as int) =~= s@);
    buf
}

fn collapse_dashes_exec(s: &[char]) -> (r: Vec<char>)
    ensures
        r@ == collapse_dashes(s@),
{
    let mut out: Vec<char> = Vec::new();
    let mut prev_dash = false;
    let mut i: usize = 0;
    while i < s.len()
        invariant
            i <= s@.len(),
            out@ == collapse_dashes(s@.take(i as int)),
            prev_dash == (i > 0 && s@[i - 1] == '-'),
        decreases s@.len() - i,
    {
        let c = s[i];
        assert(s@.take(i + 1).drop_last() =~= s@.take(i as int));
        if c == '-' {
            if !prev_dash {
                out.push(c);
            }
            prev_dash = true;
        } else {
            out.push(c);
            prev_dash = false;
        }
        i = i + 1;
    }
    assert(s@.take(s@.len() as int) =~= s@);
    out
}

/// The id drawn from a directory name: lowercased, underscores as
/// hyphens, other punctuation dropped, runs of hyphens collapsed and outer
/// hyphens trimmed; empty unless that is a canonical id.
pub fn slug(basename: &str) -> (r: String)
    ensures
        r@ == slug_spec(basename@),
        r@.len() == 0 || valid_id(r@),
{
    let cs = chars_of(basename);
    let buf = slug_chars_exec(cs.as_slice());
    let collapsed = collapse_dashes_exec(buf.as_slice());
    let trimmed = trim_char_exec(collapsed.as_slice(), '-');
    let t = string_from(trimmed.as_slice());
    if is_valid_id(t.as_str()) {
        t
    } else {
        String::new()
    }
}

/// The title drawn from a directory name: `-` and `_` read as single
/// spaces, each word's first character uppercased, outer whitespace
/// trimmed.
pub fn titlecase(basename: &str) -> (r: String)
    ensures
        r@ == titlecase_spec(basename@),
{
    let cs = chars_of(basename);
    let n = cs.len();
    let mut out: Vec<char> = Vec::new();
    let mut at_boundary = true;
    let mut i: usize = 0;
    assert(cs@.skip(0) =~= cs@);
    while i < n
        invariant
            n == cs@.len(),
            i <= n,
            title_from(cs@, Seq::empty(), true) == title_from(cs@.skip(i as int), out@, at_boundary),
        decreases n - i,
    {
        let c = cs[i];
        let ghost rest = cs@.skip(i as int);
        assert(rest[0] == c);
        assert(rest.drop_first() =~= cs@.skip(i + 1));
        if c == '-' || c == '_' {
            if !(out.len() > 0 && out[out.len() - 1] == ' ') {
                out.push(' ');
            }
            at_boundary = true;
        } else if at_boundary {
            let u = uppercase_chars(c);
            extend_chars(&mut out, u.as_slice());
            at_boundary = false;
        } else {
            out.push(c);
        }
        i = i + 1;
    }
    let t = trim_exec(out.as_slice());
    string_from(t.as_slice())
}

/// Starting id and title for the directory `dir`: both empty when the path
/// has no final component.
pub fn extract(dir: &str) -> (r: DraftMetadata)
    ensures
        r.view() == extract_spec_view(dir@),
        r.id@.len() == 0 || valid_id(r.id@),
{
    match file_name(dir) {
        None => DraftMetadata { id: String::new(), title: String::new() },
        Some(basename) => DraftMetadata {
            id: slug(basename.as_str()),
            title: titlecase(basename.as_str()),
        },
    }
}

} // verus!
