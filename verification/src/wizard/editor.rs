//! Choosing the editor the wizard opens a draft in, and splitting its
//! command line. Starting the editor is the program's work.

use vstd::prelude::*;
use crate::text::{ascii_words, chars_of, string_from, trim, trim_exec, views, words_exec};

verus! {

#[derive(Debug)]
pub enum EditorError {
    NoneAvailable,
    NonZeroExit(String),
    Io(String),
}

/// The words of an editor command line, split at ASCII whitespace.
pub fn shell_split(s: &str) -> (r: Vec<String>)
    ensures
        crate::text::string_views(r@) == ascii_words(s@),
{
    let cs = chars_of(s);
    let w = words_exec(cs.as_slice(), true);
    let mut out: Vec<String> = Vec::new();
    let mut i: usize = 0;
    while i < w.len()
        invariant
            i <= w@.len(),
            views(w@) == ascii_words(s@),
            crate::text::string_views(out@) == views(w@).take(i as int),
        decreases w@.len() - i,
    {
        assert(views(w@)[i as int] == w@[i as int]@);
        let ghost before = out@;
        out.push(string_from(w[i].as_slice()));
        assert(crate::text::string_views(out@) =~= crate::text::string_views(before).push(views(w@)[i as int]));
        i = i + 1;
        assert(crate::text::string_views(out@) =~= views(w@).take(i as int));
    }
    assert(views(w@).take(w@.len() as int) =~= views(w@));
    out
}

pub open spec fn usable_env(v: Option<String>) -> bool {
    match v {
        Some(s) => trim(s@).len() > 0,
        None => false,
    }
}

/// The editor to use: `$EDITOR`, else `$VISUAL` (each only when it holds
/// more than whitespace), else the first of `nano`, `vim`, `vi` found on
/// the path (`on_path` says which are).
pub open spec fn editor_choice(editor: Option<String>, visual: Option<String>, on_path: (bool, bool, bool)) -> Option<Seq<char>> {
    if usable_env(editor) {
        Some(editor->0@)
    } else if usable_env(visual) {
        Some(visual->0@)
    } else if on_path.0 {
        Some("nano"@)
    } else if on_path.1 {
        Some("vim"@)
    } else if on_path.2 {
        Some("vi"@)
    } else {
        None
    }
}

fn usable(v: &Option<String>) -> (r: bool)
    ensures
        r == usable_env(*v),
{
    match v {
        Some(s) => trim_exec(chars_of(s.as_str()).as_slice()).len() > 0,
        None => false,
    }
}

pub fn resolve_editor(editor: Option<String>, visual: Option<String>, on_path: (bool, bool, bool)) -> (r: Option<String>)
    ensures
        match r {
            Some(e) => editor_choice(editor, visual, on_path) == Some(e@),
            None => editor_choice(editor, visual, on_path) is None,
        },
{
    if usable(&editor) {
        return editor;
    }
    if usable(&visual) {
        return visual;
    }
    if on_path.0 {
        Some(crate::text::owned("nano"))
    } else if on_path.1 {
        Some(crate::text::owned("vim"))
    } else if on_path.2 {
        Some(crate::text::owned("vi"))
    } else {
        None
    }
}

} // verus!
