//! Short names for well-known taps.

use vstd::prelude::*;
use crate::text::{chars_of, starts_with, starts_with_exec, str_eq};

verus! {

/// The short names the launcher knows, with their canonical URLs.
pub fn known_taps() -> (r: Vec<(&'static str, &'static str)>)
    ensures
        r@.len() == 1,
        r@[0].0@ == "reliquaint-core"@,
        r@[0].1@ == "https://github.com/syraenix/reliquaint-core"@,
{
    let mut v: Vec<(&'static str, &'static str)> = Vec::new();
    v.push(("reliquaint-core", "https://github.com/syraenix/reliquaint-core"));
    v
}

/// The canonical URL of a known short name.
pub open spec fn known_tap_url(name: Seq<char>) -> Option<Seq<char>> {
    if name == "reliquaint-core"@ {
        Some("https://github.com/syraenix/reliquaint-core"@)
    } else {
        None
    }
}

/// Sources that are already a URL or a path.
pub open spec fn is_direct_source(s: Seq<char>) -> bool {
    starts_with(s, "https://"@) || starts_with(s, "http://"@) || starts_with(s, "/"@)
        || starts_with(s, "."@)
}

/// Is `name` one of the known short names?
pub fn is_known_tap(name: &str) -> (r: bool)
    ensures
        r == (known_tap_url(name@) is Some),
{
    let taps = known_taps();
    let mut i: usize = 0;
    while i < taps.len()
        invariant
            i <= taps@.len(),
            taps@.len() == 1,
            taps@[0].0@ == "reliquaint-core"@,
            forall|k: int| 0 <= k < i ==> taps@[k].0@ != name@,
        decreases taps@.len() - i,
    {
        if str_eq(taps[i].0, name) {
            return true;
        }
        i = i + 1;
    }
    false
}

/// Resolve a short name to its canonical URL. HTTP(S) URLs and paths
/// starting with `/` or `.` pass through unchanged, and so do unknown names.
pub fn resolve_tap_source(input: &str) -> (r: &str)
    ensures
        r@ == if is_direct_source(input@) {
            input@
        } else {
            match known_tap_url(input@) {
                Some(url) => url,
                None => input@,
            }
        },
{
    let s = chars_of(input);
    let https = chars_of("https://");
    let http = chars_of("http://");
    let slash = chars_of("/");
    let dot = chars_of(".");
    if starts_with_exec(s.as_slice(), https.as_slice()) || starts_with_exec(
        s.as_slice(),
        http.as_slice(),
    ) || starts_with_exec(s.as_slice(), slash.as_slice()) || starts_with_exec(
        s.as_slice(),
        dot.as_slice(),
    ) {
        return input;
    }
    let taps = known_taps();
    let mut i: usize = 0;
    while i < taps.len()
        invariant
            i <= taps@.len(),
            taps@.len() == 1,
            taps@[0].0@ == "reliquaint-core"@,
            taps@[0].1@ == "https://github.com/syraenix/reliquaint-core"@,
            !is_direct_source(input@),
            forall|k: int| 0 <= k < i ==> taps@[k].0@ != input@,
        decreases taps@.len() - i,
    {
        if str_eq(taps[i].0, input) {
            assert(i == 0);
            assert(input@ == "reliquaint-core"@);
            return taps[i].1;
        }
        i = i + 1;
    }
    input
}

} // verus!
