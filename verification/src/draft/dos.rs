//! DOS drafts, and the DOSBox Staging config a new DOS entry starts from.

use vstd::prelude::*;
use crate::catalog::{
    Acquisition, CatalogEntry, DosboxRuntime, Emulator, Game, Install, Meta, Platform, Runtime,
};
use crate::draft::{blank_parts, DraftError};
use crate::heuristic::dos::EntryPointCandidate;
use crate::heuristic::metadata::DraftMetadata;
use crate::text::{
    chars_of, lines, lines_exec, lower_seq, lower_vec, owned, push_str, seq_eq, string_from,
    trim_start, trim_start_exec, views,
};

verus! {

/// The DOSBox Staging settings a new DOS entry starts from, before its
/// `[autoexec]` section is dropped.
pub const DEFAULT_CONF_TEMPLATE: &'static str = "# DOSBox Staging settings for one game.\n\n[sdl]\nfullscreen = false\noutput = opengl\n\n[dosbox]\nmachine = svga_s3\nmemsize = 16\n\n[cpu]\ncore = auto\ncputype = auto\ncpu_cycles = 3000\n\n[mixer]\nrate = 48000\n\n[midi]\nmididevice = fluidsynth\n\n[sblaster]\nsbtype = sb16\n\n[autoexec]\n# Mounting and running the game is done by the launcher.\n";

/// What [`compose`] promises for a DOS draft.
pub open spec fn compose_post(
    metadata: &DraftMetadata,
    candidates: Seq<EntryPointCandidate>,
    r: Result<CatalogEntry, DraftError>,
) -> bool {
    match r {
        Ok(e) => {
            &&& metadata.id@.len() > 0
            &&& candidates.len() > 0
            &&& e.schema_version == 1
            &&& e.game.id@ == metadata.id@
            &&& e.game.title@ == metadata.title@
            &&& e.game.platform == Platform::Dos
            &&& e.game.collection is None && e.game.collection_name is None
            &&& blank_parts(e.meta, e.acquisition, e.install)
            &&& e.runtime.emulator == Emulator::DosboxStaging
            &&& e.runtime.sidecars@.len() == 0
            &&& e.runtime.fs_uae is None
            &&& e.runtime.dosbox matches Some(d) && d.config@ == metadata.id@ + ".conf"@
                && d.entry@ == candidates[0].file_name@ && d.mount@ == "c"@
        },
        Err(DraftError::NoIdDerivable) => metadata.id@.len() == 0,
        Err(DraftError::NoDosEntryPoint) => metadata.id@.len() > 0 && candidates.len() == 0,
        Err(_) => false,
    }
}

/// A DOS draft: the derived id and title, the top-ranked entry point, and
/// a shipped config named after the id.
pub fn compose(metadata: &DraftMetadata, candidates: &Vec<EntryPointCandidate>) -> (r: Result<
    CatalogEntry,
    DraftError,
>)
    ensures
        compose_post(metadata, candidates@, r),
{
    if metadata.id.as_str().is_empty() {
        return Err(DraftError::NoIdDerivable);
    }
    if candidates.len() == 0 {
        return Err(DraftError::NoDosEntryPoint);
    }
    let entry = candidates[0].file_name.clone();
    let mut config = metadata.id.clone();
    push_str(&mut config, ".conf");
    Ok(
        CatalogEntry {
            schema_version: 1,
            game: Game {
                id: metadata.id.clone(),
                title: metadata.title.clone(),
                platform: Platform::Dos,
                collection: None,
                collection_name: None,
            },
            meta: Meta::default(),
            acquisition: Acquisition::default(),
            install: Install::default(),
            runtime: Runtime {
                emulator: Emulator::DosboxStaging,
                sidecars: Vec::new(),
                dosbox: Some(DosboxRuntime { config, entry, mount: owned("c") }),
                fs_uae: None,
            },
        },
    )
}

/// Is the (start-trimmed) line a section header such as `[cpu]`?
pub open spec fn is_header(t: Seq<char>) -> bool {
    t.len() > 0 && t[0] == '[' && t.last() == ']'
}

/// The lines kept, each followed by a newline, reading from the front with
/// `in_autoexec` telling whether an `[autoexec]` section is open.
pub open spec fn strip_from(ls: Seq<Seq<char>>, in_autoexec: bool) -> Seq<char>
    decreases ls.len(),
{
    if ls.len() == 0 {
        Seq::empty()
    } else {
        let t = trim_start(ls[0]);
        let now_in = if is_header(t) {
            lower_seq(t) == "[autoexec]"@
        } else {
            in_autoexec
        };
        if now_in {
            strip_from(ls.drop_first(), now_in)
        } else {
            ls[0] + seq!['\n'] + strip_from(ls.drop_first(), now_in)
        }
    }
}

/// `s` with trailing newlines removed down to one.
pub open spec fn trim_blank_tail(s: Seq<char>) -> Seq<char>
    decreases s.len(),
{
    if s.len() >= 2 && s.last() == '\n' && s[s.len() - 2] == '\n' {
        trim_blank_tail(s.drop_last())
    } else {
        s
    }
}

pub open spec fn strip_autoexec_spec(text: Seq<char>) -> Seq<char> {
    trim_blank_tail(strip_from(lines(text), false))
}

/// `text` without its `[autoexec]` section (the launcher supplies its own
/// commands), and without a run of blank lines at the end.
pub fn strip_autoexec(text: &str) -> (r: String)
    ensures
        r@ == strip_autoexec_spec(text@),
{
    let cs = chars_of(text);
    let ls = lines_exec(cs.as_slice());
    let ghost lv = views(ls@);
    let auto = chars_of("[autoexec]");
    let mut out: Vec<char> = Vec::new();
    let mut in_autoexec = false;
    let mut i: usize = 0;
    assert(lv.skip(0) =~= lv);
    while i < ls.len()
        invariant
            i <= ls@.len(),
            lv == views(ls@),
            lv == lines(text@),
            auto@ == "[autoexec]"@,
            strip_from(lv, false) == out@ + strip_from(lv.skip(i as int), in_autoexec),
        decreases ls@.len() - i,
    {
        assert(lv.skip(i as int)[0] == ls@[i as int]@);
        assert(lv.skip(i as int).drop_first() =~= lv.skip(i + 1));
        let line = &ls[i];
        let t = trim_start_exec(line.as_slice());
        if t.len() > 0 && t[0] == '[' && t[t.len() - 1] == ']' {
            let lt = lower_vec(t.as_slice());
            in_autoexec = seq_eq(lt.as_slice(), auto.as_slice());
        }
        if !in_autoexec {
            let ghost before = out@;
            crate::text::extend_chars(&mut out, line.as_slice());
            out.push('\n');
            assert(out@ =~= before + (line@ + seq!['\n']));
        }
        i = i + 1;
    }
    assert(lv.skip(ls@.len() as int) =~= Seq::<Seq<char>>::empty());
    assert(out@ =~= strip_from(lv, false));
    let mut n = out.len();
    assert(out@.take(n as int) =~= out@);
    while n >= 2 && out[n - 1] == '\n' && out[n - 2] == '\n'
        invariant
            n <= out@.len(),
            trim_blank_tail(out@) == trim_blank_tail(out@.take(n as int)),
        decreases n,
    {
        assert(out@.take(n as int).drop_last() =~= out@.take(n - 1));
        n = n - 1;
    }
    let kept = crate::text::slice_vec(out.as_slice(), 0, n);
    assert(kept@ =~= out@.take(n as int));
    string_from(kept.as_slice())
}

/// The config a new DOS entry ships: the default settings without an
/// `[autoexec]` section.
pub fn default_dosbox_config() -> (r: String)
    ensures
        r@ == strip_autoexec_spec(DEFAULT_CONF_TEMPLATE@),
{
    strip_autoexec(DEFAULT_CONF_TEMPLATE)
}

} // verus!
