//! Taps: directories of catalog entries with a `tap.toml` describing them.
//! The user's own tap has the reserved id `local`; every other tap must
//! choose another id.

use vstd::prelude::*;
use crate::catalog::{is_valid_id, valid_id, CatalogEntry};
use crate::order::{key_order, key_views, sort_keyed, Key, SortKey};
use crate::paths::join_spec;
use crate::text::{chars_of, ends_with, ends_with_exec, owned, str_eq};

verus! {

/// The id of the user's own tap.
pub const RESERVED_USER_TAP_ID: &'static str = "local";

#[derive(Debug, Clone, PartialEq, Eq)]
pub struct TapMetadata {
    pub schema_version: u32,
    pub id: String,
    pub title: String,
    pub description: String,
    pub version: String,
    pub maintainer: String,
    pub url: String,
    pub license: String,
}

#[derive(Debug, Clone, PartialEq, Eq)]
pub struct LoadedEntry {
    /// The entry file it was read from.
    pub source_path: String,
    pub entry: CatalogEntry,
}

#[derive(Debug, Clone, PartialEq, Eq)]
pub struct LoadedTap {
    pub metadata: TapMetadata,
    pub root: String,
    /// The tap's entries, in game-id order, each id once.
    pub entries: Vec<LoadedEntry>,
}

#[derive(Debug)]
pub enum TapError {
    Read { path: String, message: String },
    Parse { path: String, message: String },
    UnsupportedSchema { path: String, version: u32 },
    InvalidId { path: String, id: String },
    MissingRoot { root: String },
    CatalogDirRead { dir: String, message: String },
    DuplicateGameId { tap_id: String, game_id: String, first: String, second: String },
    ReservedTapId { path: String, id: String },
    UnexpectedUserTapId { path: String, id: String, expected: &'static str },
    Write { path: String, message: String },
}

/// Accept parsed tap metadata only at schema version 1 with a canonical id.
pub fn check_metadata(meta: TapMetadata, path: &str) -> (r: Result<TapMetadata, TapError>)
    ensures
        match r {
            Ok(m) => m == meta && meta.schema_version == 1 && valid_id(meta.id@),
            Err(TapError::UnsupportedSchema { path: p, version }) => meta.schema_version != 1
                && version == meta.schema_version && p@ == path@,
            Err(TapError::InvalidId { path: p, id }) => meta.schema_version == 1 && !valid_id(meta.id@)
                && id@ == meta.id@ && p@ == path@,
            Err(_) => false,
        },
{
    if meta.schema_version != 1 {
        return Err(TapError::UnsupportedSchema { path: owned(path), version: meta.schema_version });
    }
    if !is_valid_id(meta.id.as_str()) {
        return Err(TapError::InvalidId { path: owned(path), id: meta.id.clone() });
    }
    Ok(meta)
}

/// The metadata written when the user tap is first created.
pub fn default_user_tap_metadata() -> (r: TapMetadata)
    ensures
        r.schema_version == 1,
        r.id@ == "local"@,
        r.title@ == "Local games"@,
        r.description@ == "User-created catalog entries managed by the Reliquaint wizard."@,
        r.version@ == "0.1.0"@,
        r.maintainer@ == "local"@,
        r.url@ == "https://github.com/syraenix/reliquaint"@,
        r.license@ == "CC0-1.0"@,
{
    TapMetadata {
        schema_version: 1,
        id: owned(RESERVED_USER_TAP_ID),
        title: owned("Local games"),
        description: owned("User-created catalog entries managed by the Reliquaint wizard."),
        version: owned("0.1.0"),
        maintainer: owned("local"),
        url: owned("https://github.com/syraenix/reliquaint"),
        license: owned("CC0-1.0"),
    }
}

/// Is a file named `name` in a catalog directory an entry? Names starting
/// with `_` or `.` are skipped, and only `.toml` files count.
pub fn is_entry_file_name(name: &str) -> (r: bool)
    ensures
        r == (!(name@.len() > 0 && (name@[0] == '_' || name@[0] == '.')) && ends_with(name@, ".toml"@)),
{
    let cs = chars_of(name);
    if cs.len() > 0 && (cs[0] == '_' || cs[0] == '.') {
        return false;
    }
    let suffix = chars_of(".toml");
    ends_with_exec(cs.as_slice(), suffix.as_slice())
}

/// The first place in `es[..k]` whose game id appeared earlier, with the
/// earlier place.
pub open spec fn first_duplicate(es: Seq<LoadedEntry>, k: int) -> Option<(int, int)>
    decreases k,
{
    if k <= 0 {
        None
    } else {
        match first_duplicate(es, k - 1) {
            Some(d) => Some(d),
            None => if exists|j: int| 0 <= j < k - 1 && #[trigger] es[j].entry.game.id@ == es[k - 1].entry.game.id@ {
                Some((choose|j: int| 0 <= j < k - 1 && #[trigger] es[j].entry.game.id@ == es[k - 1].entry.game.id@, k - 1))
            } else {
                None
            },
        }
    }
}

/// The keys entries are ordered by: their game ids.
pub open spec fn entry_keys(es: Seq<LoadedEntry>) -> Seq<Key> {
    Seq::new(es.len(), |i: int| (0i32, seq![es[i].entry.game.id@], i))
}

/// `es` in game-id order.
pub open spec fn by_game_id(es: Seq<LoadedEntry>) -> Seq<LoadedEntry> {
    let sorted = entry_keys(es).sort_by(key_order());
    Seq::new(sorted.len(), |q: int| es[sorted[q].2])
}

/// The entries read from a tap's catalog directories (in the order read),
/// keyed by game id: the first repeated id is an error naming both files.
pub fn index_entries(tap_id: &str, loaded: Vec<LoadedEntry>) -> (r: Result<Vec<LoadedEntry>, TapError>)
    ensures
        match r {
            Ok(es) => first_duplicate(loaded@, loaded@.len() as int) is None && es@ == by_game_id(loaded@),
            Err(TapError::DuplicateGameId { tap_id: t, game_id, first, second }) => {
                &&& t@ == tap_id@
                &&& first_duplicate(loaded@, loaded@.len() as int) matches Some((a, b))
                &&& game_id@ == loaded@[b].entry.game.id@
                &&& first@ == loaded@[a].source_path@
                &&& second@ == loaded@[b].source_path@
            },
            Err(_) => false,
        },
{
    let ghost orig = loaded@;
    let n = loaded.len();
    let mut i: usize = 0;
    while i < n
        invariant
            n == orig.len(),
            loaded@ == orig,
            i <= n,
            first_duplicate(orig, i as int) is None,
        decreases n - i,
    {
        let mut j: usize = 0;
        while j < i
            invariant
                n == orig.len(),
                loaded@ == orig,
                i < n,
                j <= i,
                first_duplicate(orig, i as int) is None,
                forall|q: int| 0 <= q < j ==> #[trigger] orig[q].entry.game.id@ != orig[i as int].entry.game.id@,
            decreases i - j,
        {
            if loaded[j].entry.game.id == loaded[i].entry.game.id {
                proof {
                    assert(orig[j as int].entry.game.id@ == orig[i as int].entry.game.id@);
                    let w = choose|q: int| 0 <= q < i && #[trigger] orig[q].entry.game.id@ == orig[i as int].entry.game.id@;
                    assert forall|q: int| 0 <= q < i && q != j implies #[trigger] orig[q].entry.game.id@ != orig[i as int].entry.game.id@ by {
                        if q < j {
                        } else {
                            lemma_no_dup_prefix(orig, i as int, q, j as int);
                        }
                    }
                    assert(w == j);
                    lemma_dup_sticks(orig, i as int + 1, n as int);
                }
                return Err(
                    TapError::DuplicateGameId {
                        tap_id: owned(tap_id),
                        game_id: loaded[i].entry.game.id.clone(),
                        first: loaded[j].source_path.clone(),
                        second: loaded[i].source_path.clone(),
                    },
                );
            }
            j = j + 1;
        }
        i = i + 1;
    }
    let mut keyed: Vec<(SortKey, LoadedEntry)> = Vec::new();
    let mut loaded = loaded;
    let mut k: usize = 0;
    while loaded.len() > 0
        invariant
            k + loaded@.len() == orig.len(),
            loaded@ == orig.skip(k as int),
            keyed@.len() == k,
            forall|q: int| 0 <= q < k ==> (#[trigger] keyed@[q]).0.view() == entry_keys(orig)[q] && keyed@[q].1 == orig[q],
        decreases loaded@.len(),
    {
        let e = loaded.remove(0);
        assert(e == orig[k as int]);
        assert(loaded@ =~= orig.skip(k + 1));
        let mut names: Vec<String> = Vec::new();
        names.push(e.entry.game.id.clone());
        let key = SortKey { rank: 0, names, index: k };
        assert(crate::text::string_views(key.names@) =~= seq![orig[k as int].entry.game.id@]);
        keyed.push((key, e));
        assert(keyed.len() == k + 1);
        k = keyed.len();
    }
    let ghost kv = keyed@;
    assert(key_views(kv) =~= entry_keys(orig));
    let sorted = sort_keyed(keyed);
    let ghost sv = sorted@;
    let mut out: Vec<LoadedEntry> = Vec::new();
    let mut sorted = sorted;
    let mut q: usize = 0;
    while sorted.len() > 0
        invariant
            q + sorted@.len() == sv.len(),
            sorted@ == sv.skip(q as int),
            sv.len() == orig.len(),
            key_views(sv) == entry_keys(orig).sort_by(key_order()),
            forall|w: int| 0 <= w < sv.len() ==> kv.contains(#[trigger] sv[w]),
            forall|w: int| 0 <= w < kv.len() ==> (#[trigger] kv[w]).0.view() == entry_keys(orig)[w] && kv[w].1 == orig[w],
            kv.len() == orig.len(),
            out@.len() == q,
            forall|w: int| 0 <= w < q ==> #[trigger] out@[w] == by_game_id(orig)[w],
        decreases sorted@.len(),
    {
        let pair = sorted.remove(0);
        assert(pair == sv[q as int]);
        assert(sorted@ =~= sv.skip(q + 1));
        proof {
            assert(kv.contains(sv[q as int]));
            let w = choose|w: int| 0 <= w < kv.len() && kv[w] == sv[q as int];
            assert(key_views(sv)[q as int] == sv[q as int].0.view());
            assert(entry_keys(orig)[w].2 == w);
            assert(by_game_id(orig)[q as int] == orig[entry_keys(orig).sort_by(key_order())[q as int].2]);
        }
        out.push(pair.1);
        assert(out.len() == q + 1);
        q = out.len();
    }
    assert(out@ =~= by_game_id(orig));
    Ok(out)
}

proof fn lemma_no_dup_prefix(es: Seq<LoadedEntry>, i: int, q: int, j: int)
    requires
        0 <= j < q < i < es.len(),
        first_duplicate(es, i) is None,
        es[j].entry.game.id@ == es[i].entry.game.id@,
    ensures
        es[q].entry.game.id@ != es[i].entry.game.id@,
{
    if es[q].entry.game.id@ == es[i].entry.game.id@ {
        lemma_prefix_none(es, q + 1, i);
        assert(es[j].entry.game.id@ == es[q].entry.game.id@);
        assert(exists|x: int| 0 <= x < q && #[trigger] es[x].entry.game.id@ == es[q].entry.game.id@);
    }
}

proof fn lemma_prefix_none(es: Seq<LoadedEntry>, a: int, b: int)
    requires
        0 <= a <= b <= es.len(),
        first_duplicate(es, b) is None,
    ensures
        first_duplicate(es, a) is None,
    decreases b - a,
{
    if a < b {
        lemma_prefix_none(es, a, b - 1);
    }
}

proof fn lemma_dup_sticks(es: Seq<LoadedEntry>, k: int, n: int)
    requires
        0 <= k <= n <= es.len(),
        first_duplicate(es, k) is Some,
    ensures
        first_duplicate(es, n) == first_duplicate(es, k),
    decreases n - k,
{
    if k < n {
        lemma_dup_sticks(es, k, n - 1);
    }
}

/// A loaded tap that is not the user tap: its id must not be `local`.
pub fn load_tap(loaded: LoadedTap) -> (r: Result<LoadedTap, TapError>)
    ensures
        match r {
            Ok(t) => t == loaded && loaded.metadata.id@ != "local"@,
            Err(TapError::ReservedTapId { path, id }) => loaded.metadata.id@ == "local"@
                && path@ == join_spec(loaded.root@, "tap.toml"@) && id@ == loaded.metadata.id@,
            Err(_) => false,
        },
{
    if str_eq(loaded.metadata.id.as_str(), RESERVED_USER_TAP_ID) {
        return Err(
            TapError::ReservedTapId {
                path: crate::paths::join(loaded.root.as_str(), "tap.toml"),
                id: loaded.metadata.id.clone(),
            },
        );
    }
    Ok(loaded)
}

/// The user tap: its id must be `local`.
pub fn load_user_tap(loaded: LoadedTap) -> (r: Result<LoadedTap, TapError>)
    ensures
        match r {
            Ok(t) => t == loaded && loaded.metadata.id@ == "local"@,
            Err(TapError::UnexpectedUserTapId { path, id, expected }) => loaded.metadata.id@
                != "local"@ && path@ == join_spec(loaded.root@, "tap.toml"@) && id@
                == loaded.metadata.id@ && expected@ == "local"@,
            Err(_) => false,
        },
{
    if !str_eq(loaded.metadata.id.as_str(), RESERVED_USER_TAP_ID) {
        return Err(
            TapError::UnexpectedUserTapId {
                path: crate::paths::join(loaded.root.as_str(), "tap.toml"),
                id: loaded.metadata.id.clone(),
                expected: RESERVED_USER_TAP_ID,
            },
        );
    }
    Ok(loaded)
}

/// The metadata of a freshly fetched tap, and whether its id differs from
/// the one expected (which only warrants a warning).
pub fn validate_tap_dir(loaded: LoadedTap, expected_id: Option<&str>) -> (r: (TapMetadata, bool))
    ensures
        r.0 == loaded.metadata,
        r.1 == match expected_id {
            Some(e) => loaded.metadata.id@ != e@,
            None => false,
        },
{
    let mismatch = match expected_id {
        Some(e) => !str_eq(loaded.metadata.id.as_str(), e),
        None => false,
    };
    (loaded.metadata, mismatch)
}

} // verus!

verus! {

impl TapError {
    /// The text of the error.
    pub open spec fn message_view(&self) -> Seq<char> {
        match self {
            TapError::Read { path, message } => "failed to read tap metadata "@ + path@ + ": "@ + message@,
            TapError::Parse { path, message } => "failed to parse tap metadata "@ + path@ + ": "@ + message@,
            TapError::UnsupportedSchema { path, version } => "unsupported schema_version "@ + crate::text::decimal(*version as nat) + " in "@ + path@ + " (expected 1 — see docs/schema.md)"@,
            TapError::InvalidId { path, id } => "invalid tap id "@ + crate::text::debug_quoted(id@) + " in "@ + path@ + ": must match ^[a-z][a-z0-9-]*[a-z0-9]$ and be ≤64 chars"@,
            TapError::MissingRoot { root } => "tap root not found: "@ + root@,
            TapError::CatalogDirRead { dir, message } => "failed to read catalog directory "@ + dir@ + ": "@ + message@,
            TapError::DuplicateGameId { tap_id, game_id, first, second } => "duplicate game id "@ + crate::text::debug_quoted(game_id@) + " in tap "@ + crate::text::debug_quoted(tap_id@) + ": "@ + first@ + " and "@ + second@,
            TapError::ReservedTapId { path, id } => "tap id "@ + crate::text::debug_quoted(id@) + " in "@ + path@ + " is reserved for the user tap"@,
            TapError::UnexpectedUserTapId { path, id, expected } => "user tap at "@ + path@ + " has id "@ + crate::text::debug_quoted(id@) + "; expected "@ + crate::text::debug_quoted(expected@),
            TapError::Write { path, message } => "failed to write "@ + path@ + ": "@ + message@,
        }
    }

    /// The message shown for the error.
    pub fn message(&self) -> (r: String)
        ensures
            r@ == self.message_view(),
    {
        match self {
            TapError::Read { path, message } => {
                let mut r = crate::text::owned("failed to read tap metadata ");
                crate::text::push_str(&mut r, path.as_str());
                crate::text::push_str(&mut r, ": ");
                crate::text::push_str(&mut r, message.as_str());
                r
            },
            TapError::Parse { path, message } => {
                let mut r = crate::text::owned("failed to parse tap metadata ");
                crate::text::push_str(&mut r, path.as_str());
                crate::text::push_str(&mut r, ": ");
                crate::text::push_str(&mut r, message.as_str());
                r
            },
            TapError::UnsupportedSchema { path, version } => {
                let mut r = crate::text::owned("unsupported schema_version ");
                crate::text::push_decimal(&mut r, *version as u64);
                crate::text::push_str(&mut r, " in ");
                crate::text::push_str(&mut r, path.as_str());
                crate::text::push_str(&mut r, " (expected 1 — see docs/schema.md)");
                r
            },
            TapError::InvalidId { path, id } => {
                let mut r = crate::text::owned("invalid tap id ");
                crate::text::push_debug_quoted(&mut r, id.as_str());
                crate::text::push_str(&mut r, " in ");
                crate::text::push_str(&mut r, path.as_str());
                crate::text::push_str(&mut r, ": must match ^[a-z][a-z0-9-]*[a-z0-9]$ and be ≤64 chars");
                r
            },
            TapError::MissingRoot { root } => {
                let mut r = crate::text::owned("tap root not found: ");
                crate::text::push_str(&mut r, root.as_str());
                r
            },
            TapError::CatalogDirRead { dir, message } => {
                let mut r = crate::text::owned("failed to read catalog directory ");
                crate::text::push_str(&mut r, dir.as_str());
                crate::text::push_str(&mut r, ": ");
                crate::text::push_str(&mut r, message.as_str());
                r
            },
            TapError::DuplicateGameId { tap_id, game_id, first, second } => {
                let mut r = crate::text::owned("duplicate game id ");
                crate::text::push_debug_quoted(&mut r, game_id.as_str());
                crate::text::push_str(&mut r, " in tap ");
                crate::text::push_debug_quoted(&mut r, tap_id.as_str());
                crate::text::push_str(&mut r, ": ");
                crate::text::push_str(&mut r, first.as_str());
                crate::text::push_str(&mut r, " and ");
                crate::text::push_str(&mut r, second.as_str());
                r
            },
            TapError::ReservedTapId { path, id } => {
                let mut r = crate::text::owned("tap id ");
                crate::text::push_debug_quoted(&mut r, id.as_str());
                crate::text::push_str(&mut r, " in ");
                crate::text::push_str(&mut r, path.as_str());
                crate::text::push_str(&mut r, " is reserved for the user tap");
                r
            },
            TapError::UnexpectedUserTapId { path, id, expected } => {
                let mut r = crate::text::owned("user tap at ");
                crate::text::push_str(&mut r, path.as_str());
                crate::text::push_str(&mut r, " has id ");
                crate::text::push_debug_quoted(&mut r, id.as_str());
                crate::text::push_str(&mut r, "; expected ");
                crate::text::push_debug_quoted(&mut r, *expected);
                r
            },
            TapError::Write { path, message } => {
                let mut r = crate::text::owned("failed to write ");
                crate::text::push_str(&mut r, path.as_str());
                crate::text::push_str(&mut r, ": ");
                crate::text::push_str(&mut r, message.as_str());
                r
            },
        }
    }
}

} // verus!
