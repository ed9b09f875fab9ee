//! Companion Markdown to sanitized HTML. Markdown is parsed by
//! `pulldown-cmark`; raw HTML in it is turned into escaped text; relative
//! image sources are rewritten to the `reliquaint-content://` protocol and
//! relative `.md` links to `reliquaint-nav://`; image sources with a URL
//! scheme are dropped; the HTML is then cleaned by `ammonia` against a
//! strict whitelist.

use std::collections::{HashMap, HashSet};
use ammonia::Builder;
use ammonia::UrlRelative::{Deny, PassThrough};
use pulldown_cmark::{html, Event, LinkType, Options, Parser};
use pulldown_cmark::Event::{Html, InlineHtml, Start, Text};
use pulldown_cmark::Tag::{Image, Link};
use vstd::prelude::*;
use crate::text::{
    chars_of, ends_with, ends_with_exec, is_alnum, is_alnum_exec, is_ascii, is_lower, is_lower_exec,
    is_upper, is_upper_exec, join_sep, lower_seq, lower_vec, push_char, push_str, split_exec,
    split_on, split_from, string_from, string_views, strip_start_all, views,
};

verus! {

pub open spec fn is_alpha(c: char) -> bool {
    is_lower(c) || is_upper(c)
}

pub open spec fn is_scheme_char(c: char) -> bool {
    is_alnum(c) || c == '+' || c == '-' || c == '.'
}

/// Does `u` begin with a URL scheme: an ASCII letter, then letters,
/// digits, `+`, `-` or `.`, then a `:`?
pub open spec fn has_scheme_spec(u: Seq<char>) -> bool {
    &&& u.len() > 0
    &&& is_alpha(u[0])
    &&& exists|i: int| 0 < i < u.len() && #[trigger] u[i] == ':' && forall|j: int| 0 <= j < i ==> is_scheme_char(#[trigger] u[j])
}

/// Does `url` begin with a URL scheme (`scheme:`)? Relative paths such as
/// `maps/x.png` or `02-mid.md` have none.
pub fn has_scheme(url: &str) -> (r: bool)
    ensures
        r == has_scheme_spec(url@),
{
    let cs = chars_of(url);
    if cs.len() == 0 || !(is_lower_exec(cs[0]) || is_upper_exec(cs[0])) {
        return false;
    }
    let mut i: usize = 0;
    while i < cs.len()
        invariant
            i <= cs@.len(),
            cs@ == url@,
            cs@.len() > 0,
            is_alpha(cs@[0]),
            forall|j: int| 0 <= j < i ==> is_scheme_char(#[trigger] cs@[j]),
        decreases cs@.len() - i,
    {
        let c = cs[i];
        if c == ':' {
            assert(i > 0);
            assert(cs@[i as int] == ':');
            return true;
        }
        if !(is_alnum_exec(c) || c == '+' || c == '-' || c == '.') {
            proof {
                assert(!is_scheme_char(cs@[i as int]));
                assert forall|k: int| 0 < k < cs@.len() && #[trigger] cs@[k] == ':' implies !(forall|j: int|
                    0 <= j < k ==> is_scheme_char(#[trigger] cs@[j])) by {
                    if k < i {
                        assert(is_scheme_char(cs@[k]));
                    } else if k > i {
                        assert(!is_scheme_char(cs@[i as int]));
                    }
                }
            }
            return false;
        }
        i = i + 1;
    }
    proof {
        assert forall|k: int| 0 < k < cs@.len() && #[trigger] cs@[k] == ':' implies !(forall|j: int|
            0 <= j < k ==> is_scheme_char(#[trigger] cs@[j])) by {
            assert(is_scheme_char(cs@[k]));
        }
    }
    false
}

pub open spec fn is_mark(c: char) -> bool {
    c == '#' || c == '?'
}

/// The index of the first `#` or `?` in `s`, or its length.
pub open spec fn first_mark(s: Seq<char>) -> int
    decreases s.len(),
{
    if s.len() == 0 {
        0
    } else if is_mark(s[0]) {
        0
    } else {
        1 + first_mark(s.drop_first())
    }
}

proof fn lemma_first_mark(s: Seq<char>, i: int)
    requires
        0 <= i <= s.len(),
        forall|j: int| 0 <= j < i ==> !is_mark(#[trigger] s[j]),
        i == s.len() || is_mark(s[i]),
    ensures
        first_mark(s) == i,
    decreases s.len(),
{
    if s.len() > 0 && i > 0 {
        assert(!is_mark(s[0]));
        assert forall|j: int| 0 <= j < i - 1 implies !is_mark(#[trigger] s.drop_first()[j]) by {
            assert(s.drop_first()[j] == s[j + 1]);
        }
        if i < s.len() {
            assert(s.drop_first()[i - 1] == s[i]);
        }
        lemma_first_mark(s.drop_first(), i - 1);
    }
}

/// Is `dest` a link to a Markdown file: does its path part (before any
/// `#fragment` or `?query`) end with `.md`, in any ASCII case?
pub open spec fn is_markdown_target_spec(dest: Seq<char>) -> bool {
    ends_with(lower_seq(dest.take(first_mark(dest))), ".md"@)
}

pub fn is_markdown_target(dest: &str) -> (r: bool)
    ensures
        r == is_markdown_target_spec(dest@),
{
    let cs = chars_of(dest);
    let mut i: usize = 0;
    while i < cs.len() && !(cs[i] == '#' || cs[i] == '?')
        invariant
            i <= cs@.len(),
            forall|j: int| 0 <= j < i ==> !is_mark(#[trigger] cs@[j]),
        decreases cs@.len() - i,
    {
        i = i + 1;
    }
    proof {
        lemma_first_mark(cs@, i as int);
    }
    let path = crate::text::slice_vec(cs.as_slice(), 0, i);
    assert(path@ == cs@.take(i as int)) by {
        assert(path@ =~= cs@.subrange(0, i as int));
    }
    let low = lower_vec(path.as_slice());
    let md = chars_of(".md");
    ends_with_exec(low.as_slice(), md.as_slice())
}

/// `s` without every leading `./` (`trim_start_matches("./")`).
pub open spec fn strip_dot_slash(s: Seq<char>) -> Seq<char>
    decreases s.len(),
{
    if s.len() >= 2 && s[0] == '.' && s[1] == '/' {
        strip_dot_slash(s.skip(2))
    } else {
        s
    }
}

pub fn trim_dot_slash(s: &str) -> (r: String)
    ensures
        r@ == strip_dot_slash(s@),
{
    let cs = chars_of(s);
    let mut i: usize = 0;
    assert(cs@.skip(0) =~= cs@);
    while i < cs.len() && cs.len() - i >= 2 && cs[i] == '.' && cs[i + 1] == '/'
        invariant
            i <= cs@.len(),
            cs@ == s@,
            strip_dot_slash(s@) == strip_dot_slash(cs@.skip(i as int)),
        decreases cs@.len() - i,
    {
        assert(cs@.skip(i as int).skip(2) =~= cs@.skip(i + 2));
        i = i + 2;
    }
    let rest = crate::text::slice_vec(cs.as_slice(), i, cs.len());
    assert(rest@ =~= cs@.skip(i as int));
    string_from(rest.as_slice())
}

// ---- percent-encoding -------------------------------------------------

/// The characters a path segment keeps as they are: ASCII letters, digits
/// and `-`, `_`, `.`, `~`.
pub open spec fn is_unreserved(c: char) -> bool {
    is_alnum(c) || c == '-' || c == '_' || c == '.' || c == '~'
}

/// An uppercase hexadecimal digit.
pub open spec fn hex_upper(n: int) -> char {
    if n < 10 {
        ('0' as int + n) as char
    } else {
        ('A' as int + n - 10) as char
    }
}

/// `%XX`: the percent-encoding of one byte, in uppercase hex.
pub open spec fn byte_escape(b: u8) -> Seq<char> {
    seq!['%', hex_upper(b as int / 16), hex_upper(b as int % 16)]
}

pub open spec fn bytes_escape(bs: Seq<u8>) -> Seq<char>
    decreases bs.len(),
{
    if bs.len() == 0 {
        Seq::empty()
    } else {
        bytes_escape(bs.drop_last()) + byte_escape(bs.last())
    }
}

/// The UTF-8 encoding of a character: one byte below `0x80`, two below
/// `0x800`, three below `0x10000`, else four; a lead byte carrying the
/// high bits, then continuation bytes `10xxxxxx` carrying six bits each.
pub open spec fn utf8_of(c: char) -> Seq<u8> {
    let n = c as u32;
    if n < 0x80 {
        seq![n as u8]
    } else if n < 0x800 {
        seq![(0xC0 | (n >> 6)) as u8, (0x80 | (n & 0x3F)) as u8]
    } else if n < 0x10000 {
        seq![(0xE0 | (n >> 12)) as u8, (0x80 | ((n >> 6) & 0x3F)) as u8, (0x80 | (n & 0x3F)) as u8]
    } else {
        seq![
            (0xF0 | (n >> 18)) as u8,
            (0x80 | ((n >> 12) & 0x3F)) as u8,
            (0x80 | ((n >> 6) & 0x3F)) as u8,
            (0x80 | (n & 0x3F)) as u8,
        ]
    }
}

/// The bytes `char::encode_utf8` writes for `c`, computed.
fn utf8_bytes(c: char) -> (r: Vec<u8>)
    ensures
        r@ == utf8_of(c),
        1 <= r@.len() <= 4,
        is_ascii(c) ==> r@ == seq![c as u8],
{
    let n = c as u32;
    let mut r: Vec<u8> = Vec::new();
    if n < 0x80 {
        r.push(n as u8);
    } else if n < 0x800 {
        r.push((0xC0 | (n >> 6)) as u8);
        r.push((0x80 | (n & 0x3F)) as u8);
    } else if n < 0x10000 {
        r.push((0xE0 | (n >> 12)) as u8);
        r.push((0x80 | ((n >> 6) & 0x3F)) as u8);
        r.push((0x80 | (n & 0x3F)) as u8);
    } else {
        r.push((0xF0 | (n >> 18)) as u8);
        r.push((0x80 | ((n >> 12) & 0x3F)) as u8);
        r.push((0x80 | ((n >> 6) & 0x3F)) as u8);
        r.push((0x80 | (n & 0x3F)) as u8);
    }
    assert(r@ =~= utf8_of(c));
    r
}

/// `percent_encoding::percent_encode_byte`: its source returns `%` and the
/// byte's two uppercase hex digits, which the contract states.
#[verifier::external_body]
fn percent_byte(b: u8) -> (r: &'static str)
    ensures
        r@ == byte_escape(b),
{
    percent_encoding::percent_encode_byte(b)
}

/// How one character of a path segment is written in a URL.
pub open spec fn char_encoding(c: char) -> Seq<char> {
    if is_unreserved(c) {
        seq![c]
    } else {
        bytes_escape(utf8_of(c))
    }
}

/// A path segment percent-encoded: unreserved characters as they are,
/// every byte of the UTF-8 of any other character as `%XX`.
pub open spec fn segment_encoding(s: Seq<char>) -> Seq<char>
    decreases s.len(),
{
    if s.len() == 0 {
        Seq::empty()
    } else {
        segment_encoding(s.drop_last()) + char_encoding(s.last())
    }
}

fn is_unreserved_exec(c: char) -> (r: bool)
    ensures
        r == is_unreserved(c),
{
    is_alnum_exec(c) || c == '-' || c == '_' || c == '.' || c == '~'
}

/// Percent-encode one path segment.
pub fn encode_segment(seg: &[char]) -> (r: String)
    ensures
        r@ == segment_encoding(seg@),
{
    let mut out = String::new();
    let mut i: usize = 0;
    while i < seg.len()
        invariant
            i <= seg@.len(),
            out@ == segment_encoding(seg@.take(i as int)),
        decreases seg@.len() - i,
    {
        let c = seg[i];
        assert(seg@.take(i + 1).drop_last() =~= seg@.take(i as int));
        if is_unreserved_exec(c) {
            push_char(&mut out, c);
        } else {
            let bytes = utf8_bytes(c);
            let ghost start = out@;
            let mut k: usize = 0;
            while k < bytes.len()
                invariant
                    k <= bytes@.len(),
                    out@ == start + bytes_escape(bytes@.take(k as int)),
                decreases bytes@.len() - k,
            {
                assert(bytes@.take(k + 1).drop_last() =~= bytes@.take(k as int));
                push_str(&mut out, percent_byte(bytes[k]));
                k = k + 1;
                assert(out@ =~= start + bytes_escape(bytes@.take(k as int)));
            }
            assert(bytes@.take(bytes@.len() as int) =~= bytes@);
        }
        i = i + 1;
        assert(out@ =~= segment_encoding(seg@.take(i as int)));
    }
    assert(seg@.take(seg@.len() as int) =~= seg@);
    out
}

pub open spec fn encoded_all(ps: Seq<Seq<char>>) -> Seq<Seq<char>>
    decreases ps.len(),
{
    if ps.len() == 0 {
        Seq::empty()
    } else {
        encoded_all(ps.drop_last()).push(segment_encoding(ps.last()))
    }
}

/// A relative path with each `/`-separated segment percent-encoded and the
/// separators kept.
pub open spec fn encode_rel_spec(rel: Seq<char>) -> Seq<char> {
    join_sep(encoded_all(split_on(rel, '/')), "/"@)
}

pub fn encode_rel_path(rel: &str) -> (r: String)
    ensures
        r@ == encode_rel_spec(rel@),
{
    let cs = chars_of(rel);
    let pieces = split_exec(cs.as_slice(), '/');
    let ghost ps = views(pieces@);
    let mut encoded: Vec<String> = Vec::new();
    let mut i: usize = 0;
    while i < pieces.len()
        invariant
            i <= pieces@.len(),
            ps == views(pieces@),
            crate::text::string_views(encoded@) == encoded_all(ps.take(i as int)),
        decreases pieces@.len() - i,
    {
        assert(ps.take(i + 1).drop_last() =~= ps.take(i as int));
        assert(ps[i as int] == pieces@[i as int]@);
        let e = encode_segment(pieces[i].as_slice());
        let ghost before = encoded@;
        encoded.push(e);
        i = i + 1;
        assert(crate::text::string_views(encoded@) =~= encoded_all(ps.take(i as int)));
    }
    assert(ps.take(pieces@.len() as int) =~= ps);
    let slash = "/";
    crate::text::join_strings(&encoded, slash)
}

} // verus!

verus! {

proof fn lemma_concat_lacks(a: Seq<char>, b: Seq<char>, c: char)
    requires
        !a.contains(c),
        !b.contains(c),
    ensures
        !(a + b).contains(c),
{
    assert forall|k: int| 0 <= k < (a + b).len() implies (a + b)[k] != c by {
        if k < a.len() {
            assert((a + b)[k] == a[k]);
            assert(a.contains(a[k]));
        } else {
            assert((a + b)[k] == b[k - a.len()]);
            assert(b.contains(b[k - a.len()]));
        }
    }
}

proof fn lemma_bytes_escape_no_slash(bs: Seq<u8>)
    ensures
        !bytes_escape(bs).contains('/'),
    decreases bs.len(),
{
    if bs.len() > 0 {
        lemma_bytes_escape_no_slash(bs.drop_last());
        let b = bs.last();
        let e = byte_escape(b);
        assert(0 <= b as int / 16 < 16);
        assert(0 <= b as int % 16 < 16);
        assert forall|k: int| 0 <= k < e.len() implies e[k] != '/' by {
            if k == 1 {
                assert(hex_upper(b as int / 16) != '/');
            } else if k == 2 {
                assert(hex_upper(b as int % 16) != '/');
            }
        }
        lemma_concat_lacks(bytes_escape(bs.drop_last()), e, '/');
    }
}

/// Percent-encoded segments never hold a `/`, so the separators of an
/// encoded path are exactly those of the path before encoding.
pub proof fn lemma_segment_encoding_no_slash(s: Seq<char>)
    ensures
        !segment_encoding(s).contains('/'),
    decreases s.len(),
{
    if s.len() > 0 {
        lemma_segment_encoding_no_slash(s.drop_last());
        let c = s.last();
        if is_unreserved(c) {
            assert forall|k: int| 0 <= k < char_encoding(c).len() implies char_encoding(c)[k] != '/' by {}
        } else {
            lemma_bytes_escape_no_slash(utf8_of(c));
        }
        lemma_concat_lacks(segment_encoding(s.drop_last()), char_encoding(c), '/');
    }
}

proof fn lemma_encoded_all(ps: Seq<Seq<char>>)
    ensures
        encoded_all(ps).len() == ps.len(),
        forall|i: int| 0 <= i < ps.len() ==> #[trigger] encoded_all(ps)[i] == segment_encoding(ps[i]),
    decreases ps.len(),
{
    if ps.len() > 0 {
        lemma_encoded_all(ps.drop_last());
    }
}

/// What `percent_decode_str(..).decode_utf8_lossy()` gives for a segment.
pub uninterp spec fn percent_decoded(s: Seq<char>) -> Seq<char>;

/// `percent_encoding::percent_decode_str`, then `decode_utf8_lossy`. The
/// contract names the result and states two facts its source shows: a
/// segment without `%` decodes to itself, and a segment written by
/// [`encode_segment`] decodes to the text that was encoded (each `%XX`
/// gives back its byte, and the bytes are the UTF-8 of that text).
#[verifier::external_body]
fn decode_segment(seg: &str) -> (r: String)
    ensures
        r@ == percent_decoded(seg@),
        !seg@.contains('%') ==> r@ == seg@,
        forall|t: Seq<char>| seg@ == #[trigger] segment_encoding(t) ==> r@ == t,
{
    percent_encoding::percent_decode_str(seg).decode_utf8_lossy().into_owned()
}

pub open spec fn decoded_all(ps: Seq<Seq<char>>) -> Seq<Seq<char>>
    decreases ps.len(),
{
    if ps.len() == 0 {
        Seq::empty()
    } else {
        decoded_all(ps.drop_last()).push(percent_decoded(ps.last()))
    }
}

proof fn lemma_decoded_all(ps: Seq<Seq<char>>)
    ensures
        decoded_all(ps).len() == ps.len(),
        forall|i: int| 0 <= i < ps.len() ==> #[trigger] decoded_all(ps)[i] == percent_decoded(ps[i]),
    decreases ps.len(),
{
    if ps.len() > 0 {
        lemma_decoded_all(ps.drop_last());
    }
}

/// The game id and relative path a content URL path names: leading `/`
/// dropped, split at `/`, each segment percent-decoded once; the first
/// segment is the game, the others joined with `/` are the path.
pub open spec fn content_path_parts(path: Seq<char>) -> (Seq<char>, Seq<char>) {
    let ps = split_on(strip_start_all(path, '/'), '/');
    (percent_decoded(ps[0]), join_sep(decoded_all(ps.drop_first()), "/"@))
}

/// The URL path under which the content protocol serves `rel` of game `g`.
pub open spec fn content_path(g: Seq<char>, rel: Seq<char>) -> Seq<char> {
    seq!['/'] + g + seq!['/'] + encode_rel_spec(rel)
}

/// Split a content or navigation URL path (`/<game>/<rel...>`) into its
/// decoded game id and relative path. A path built from a game id without
/// `/` or `%` and the encoding of a relative path gives both back.
pub fn split_and_decode_content_path(path: &str) -> (r: (String, String))
    ensures
        (r.0@, r.1@) == content_path_parts(path@),
        forall|g: Seq<char>, rel: Seq<char>|
            #[trigger] content_path(g, rel) == path@ && g.len() > 0 && !g.contains('/') && !g.contains('%')
                ==> r.0@ == g && r.1@ == rel,
{
    let cs = chars_of(path);
    let mut i: usize = 0;
    assert(cs@.skip(0) =~= cs@);
    while i < cs.len() && cs[i] == '/'
        invariant
            i <= cs@.len(),
            cs@ == path@,
            strip_start_all(path@, '/') == strip_start_all(cs@.skip(i as int), '/'),
        decreases cs@.len() - i,
    {
        assert(cs@.skip(i as int).drop_first() =~= cs@.skip(i + 1));
        i = i + 1;
    }
    let rest = crate::text::slice_vec(cs.as_slice(), i, cs.len());
    assert(rest@ =~= cs@.skip(i as int));
    assert(strip_start_all(rest@, '/') == rest@);
    let pieces = split_exec(rest.as_slice(), '/');
    let ghost ps = views(pieces@);
    proof {
        crate::text::lemma_split_from_nonempty(rest@, '/', Seq::empty());
    }
    let mut decoded: Vec<String> = Vec::new();
    let mut k: usize = 0;
    while k < pieces.len()
        invariant
            k <= pieces@.len(),
            ps == views(pieces@),
            decoded@.len() == k,
            forall|j: int| 0 <= j < k ==> (#[trigger] decoded@[j])@ == percent_decoded(ps[j]),
            forall|j: int| 0 <= j < k ==> !ps[j].contains('%') ==> (#[trigger] decoded@[j])@ == ps[j],
            forall|j: int, t: Seq<char>| 0 <= j < k && ps[j] == #[trigger] segment_encoding(t) ==> (#[trigger] decoded@[j])@ == t,
        decreases pieces@.len() - k,
    {
        assert(ps[k as int] == pieces@[k as int]@);
        let d = decode_segment(string_from(pieces[k].as_slice()).as_str());
        decoded.push(d);
        k = k + 1;
    }
    let game = decoded.remove(0);
    let rel = crate::text::join_strings(&decoded, "/");
    proof {
        let tail = ps.drop_first();
        lemma_decoded_all(tail);
        assert(crate::text::string_views(decoded@) =~= decoded_all(tail));
        assert(game@ == percent_decoded(ps[0]));
        assert forall|g: Seq<char>, rel_s: Seq<char>|
            #[trigger] content_path(g, rel_s) == path@ && g.len() > 0 && !g.contains('/') && !g.contains('%')
            implies game@ == g && rel@ == rel_s by {
            reveal_strlit("/");
            assert("/"@ =~= seq!['/']);
            let enc = encode_rel_spec(rel_s);
            let x = g + seq!['/'] + enc;
            assert(path@ =~= seq!['/'] + x);
            assert(g[0] != '/') by {
                assert(g.contains(g[0]));
            }
            assert(strip_start_all(path@, '/') == strip_start_all(x, '/')) by {
                assert((seq!['/'] + x).drop_first() =~= x);
            }
            assert(x[0] == g[0]);
            assert(strip_start_all(x, '/') == x);
            assert(rest@ == x);
            let sr = split_on(rel_s, '/');
            crate::text::lemma_split_from_nonempty(rel_s, '/', Seq::empty());
            lemma_encoded_all(sr);
            assert forall|q: int| 0 <= q < encoded_all(sr).len() implies !(#[trigger] encoded_all(sr)[q]).contains('/') by {
                lemma_segment_encoding_no_slash(sr[q]);
            }
            crate::text::lemma_split_join(encoded_all(sr), '/');
            crate::text::lemma_split_from_sep(g, enc, '/', Seq::empty());
            crate::text::lemma_split_from_whole(g, '/', Seq::empty());
            assert(Seq::<char>::empty() + g =~= g);
            assert(split_on(enc, '/') == encoded_all(sr));
            assert(split_on(x, '/') == split_from(g, '/', Seq::empty()) + split_on(enc, '/'));
            assert(ps == seq![g] + encoded_all(sr));
            assert(ps[0] == g);
            assert(!ps[0].contains('%'));
            assert(game@ == g);
            assert(tail =~= encoded_all(sr));
            assert forall|q: int| 0 <= q < tail.len() implies #[trigger] decoded@[q]@ == sr[q] by {
                assert(ps[q + 1] == tail[q]);
                assert(tail[q] == segment_encoding(sr[q]));
                assert(decoded@[q] == decoded@[q]);
            }
            assert(crate::text::string_views(decoded@) =~= sr);
            crate::text::lemma_join_split(rel_s, '/', Seq::empty());
            assert(Seq::<char>::empty() + rel_s =~= rel_s);
        }
    }
    (game, rel)
}

pub open spec fn image_dest_spec(dest: Seq<char>, tap: Seq<char>, game: Seq<char>) -> Seq<char> {
    if has_scheme_spec(dest) {
        Seq::empty()
    } else {
        "reliquaint-content://"@ + tap + "/"@ + game + "/"@ + encode_rel_spec(strip_dot_slash(dest))
    }
}

/// The `src` an image gets: relative paths go to the content protocol of
/// the tap and game; anything with a URL scheme (remote, `data:`,
/// `file:`) becomes empty, so no remote resource is ever fetched.
pub fn rewrite_image_dest(dest: &str, tap_id: &str, game_id: &str) -> (r: String)
    ensures
        r@ == image_dest_spec(dest@, tap_id@, game_id@),
{
    if has_scheme(dest) {
        String::new()
    } else {
        let rel = encode_rel_path(trim_dot_slash(dest).as_str());
        let mut out = crate::text::owned("reliquaint-content://");
        push_str(&mut out, tap_id);
        push_str(&mut out, "/");
        push_str(&mut out, game_id);
        push_str(&mut out, "/");
        push_str(&mut out, rel.as_str());
        out
    }
}

pub open spec fn link_dest_spec(dest: Seq<char>, tap: Seq<char>, game: Seq<char>) -> Seq<char> {
    if has_scheme_spec(dest) {
        dest
    } else if is_markdown_target_spec(dest) {
        "reliquaint-nav://"@ + tap + "/"@ + game + "/"@ + encode_rel_spec(strip_dot_slash(dest))
    } else {
        dest
    }
}

/// The `href` a link gets: URLs with a scheme stay (the cleaner keeps only
/// the allowed schemes); relative links to Markdown become navigation
/// markers of the tap and game; other relative links stay, for the cleaner
/// to drop.
pub fn rewrite_link_dest(dest: &str, tap_id: &str, game_id: &str) -> (r: String)
    ensures
        r@ == link_dest_spec(dest@, tap_id@, game_id@),
{
    if has_scheme(dest) {
        crate::text::owned(dest)
    } else if is_markdown_target(dest) {
        let rel = encode_rel_path(trim_dot_slash(dest).as_str());
        let mut out = crate::text::owned("reliquaint-nav://");
        push_str(&mut out, tap_id);
        push_str(&mut out, "/");
        push_str(&mut out, game_id);
        push_str(&mut out, "/");
        push_str(&mut out, rel.as_str());
        out
    } else {
        crate::text::owned(dest)
    }
}

} // verus!

verus! {

/// Which Markdown extensions the parser runs with.
#[derive(Debug, Clone, Copy, PartialEq, Eq, Structural)]
pub struct MarkdownOptions {
    pub tables: bool,
    pub footnotes: bool,
    pub strikethrough: bool,
    pub tasklists: bool,
}

pub open spec fn companion_options_spec() -> MarkdownOptions {
    MarkdownOptions { tables: true, footnotes: true, strikethrough: true, tasklists: true }
}

/// Companion Markdown is parsed with tables, footnotes, strikethrough and
/// task lists on.
pub fn companion_markdown_options() -> (r: MarkdownOptions)
    ensures
        r == companion_options_spec(),
{
    MarkdownOptions { tables: true, footnotes: true, strikethrough: true, tasklists: true }
}

#[verifier::external_type_specification]
#[verifier::external_body]
pub struct ExParserOptions(pulldown_cmark::Options);

/// `pulldown_cmark::Options` with the four extensions set as `opts` says.
/// Nothing is stated of the value, which only the parser reads.
#[verifier::external_body]
fn parser_options(opts: MarkdownOptions) -> Options {
    let mut o = Options::empty();
    o.set(Options::ENABLE_TABLES, opts.tables);
    o.set(Options::ENABLE_FOOTNOTES, opts.footnotes);
    o.set(Options::ENABLE_STRIKETHROUGH, opts.strikethrough);
    o.set(Options::ENABLE_TASKLISTS, opts.tasklists);
    o
}

/// The relative references among image destinations: those without a URL
/// scheme, with leading `./` removed, in order.
pub open spec fn relative_refs_spec(ds: Seq<Seq<char>>) -> Seq<Seq<char>>
    decreases ds.len(),
{
    if ds.len() == 0 {
        Seq::empty()
    } else if has_scheme_spec(ds.last()) {
        relative_refs_spec(ds.drop_last())
    } else {
        relative_refs_spec(ds.drop_last()).push(strip_dot_slash(ds.last()))
    }
}

pub fn relative_refs(dests: &Vec<String>) -> (r: Vec<String>)
    ensures
        string_views(r@) == relative_refs_spec(string_views(dests@)),
{
    let ghost ds = string_views(dests@);
    let mut r: Vec<String> = Vec::new();
    let mut i: usize = 0;
    while i < dests.len()
        invariant
            i <= dests@.len(),
            ds == string_views(dests@),
            string_views(r@) == relative_refs_spec(ds.take(i as int)),
        decreases dests@.len() - i,
    {
        assert(ds.take(i + 1).drop_last() =~= ds.take(i as int));
        assert(ds[i as int] == dests@[i as int]@);
        if !has_scheme(dests[i].as_str()) {
            let t = trim_dot_slash(dests[i].as_str());
            r.push(t);
        }
        i = i + 1;
        assert(string_views(r@) =~= relative_refs_spec(ds.take(i as int)));
    }
    assert(ds.take(dests@.len() as int) =~= ds);
    r
}

/// The relative image references in companion Markdown: tap-local files
/// whose existence the doctor checks.
pub fn relative_image_refs(md: &str) -> (r: Vec<String>)
    ensures
        string_views(r@) == relative_refs_spec(image_dests_spec(events_of(md@, companion_options_spec()))),
{
    let events = markdown_events(md, companion_markdown_options());
    let dests = image_dests(&events);
    relative_refs(&dests)
}

pub open spec fn sum_lengths(ls: Seq<usize>) -> int
    decreases ls.len(),
{
    if ls.len() == 0 {
        0
    } else {
        sum_lengths(ls.drop_last()) + ls.last()
    }
}

/// The sum, or `usize::MAX` where the sum would not fit.
pub open spec fn capped_total(ls: Seq<usize>) -> int {
    if sum_lengths(ls) > usize::MAX {
        usize::MAX as int
    } else {
        sum_lengths(ls)
    }
}

proof fn lemma_sum_nonneg(ls: Seq<usize>)
    ensures
        sum_lengths(ls) >= 0,
    decreases ls.len(),
{
    if ls.len() > 0 {
        lemma_sum_nonneg(ls.drop_last());
    }
}

pub fn total_bytes(lengths: &Vec<usize>) -> (r: usize)
    ensures
        r == capped_total(lengths@),
{
    let mut acc: usize = 0;
    let mut i: usize = 0;
    while i < lengths.len()
        invariant
            i <= lengths@.len(),
            acc == capped_total(lengths@.take(i as int)),
        decreases lengths@.len() - i,
    {
        let x = lengths[i];
        proof {
            assert(lengths@.take(i + 1).drop_last() =~= lengths@.take(i as int));
            lemma_sum_nonneg(lengths@.take(i as int));
        }
        if usize::MAX - acc < x {
            acc = usize::MAX;
        } else {
            acc = acc + x;
        }
        i = i + 1;
    }
    assert(lengths@.take(lengths@.len() as int) =~= lengths@);
    acc
}

/// The bytes of raw HTML in `md`: the blocks and inline HTML the renderer
/// shows as escaped text rather than markup.
pub fn raw_html_byte_count(md: &str) -> (r: usize)
    ensures
        r == capped_total(html_lengths_spec(events_of(md@, companion_options_spec()))),
{
    let events = markdown_events(md, companion_markdown_options());
    let lengths = html_lengths(&events);
    total_bytes(&lengths)
}

#[verifier::external_type_specification]
#[verifier::external_body]
pub struct ExEvent<'a>(Event<'a>);

#[verifier::external_type_specification]
#[verifier::external_body]
pub struct ExLinkType(LinkType);

/// One event of a parsed Markdown document, with the parts the companion
/// rules read held as plain values: raw HTML, text, and the start of an
/// image or a link with its destination, title and id. Every other event
/// is carried through as the parser gave it.
pub enum MdEvent {
    Html(String),
    InlineHtml(String),
    Text(String),
    Image { link_type: LinkType, dest: String, title: String, id: String },
    Link { link_type: LinkType, dest: String, title: String, id: String },
    Other(Event<'static>),
}

/// The mathematical value of an [`MdEvent`].
pub enum MdEventView {
    Html(Seq<char>),
    InlineHtml(Seq<char>),
    Text(Seq<char>),
    Image(LinkType, Seq<char>, Seq<char>, Seq<char>),
    Link(LinkType, Seq<char>, Seq<char>, Seq<char>),
    Other(Event<'static>),
}

impl MdEvent {
    pub open spec fn view(&self) -> MdEventView {
        match self {
            MdEvent::Html(h) => MdEventView::Html(h@),
            MdEvent::InlineHtml(h) => MdEventView::InlineHtml(h@),
            MdEvent::Text(t) => MdEventView::Text(t@),
            MdEvent::Image { link_type, dest, title, id } => MdEventView::Image(*link_type, dest@, title@, id@),
            MdEvent::Link { link_type, dest, title, id } => MdEventView::Link(*link_type, dest@, title@, id@),
            MdEvent::Other(e) => MdEventView::Other(*e),
        }
    }
}

pub open spec fn event_views(es: Seq<MdEvent>) -> Seq<MdEventView> {
    es.map_values(|e: MdEvent| e.view())
}

/// The events `pulldown-cmark` produces for `md` parsed with `opts`, in
/// document order.
pub uninterp spec fn events_of(md: Seq<char>, opts: MarkdownOptions) -> Seq<MdEventView>;

/// `pulldown_cmark::Parser::new_ext` with `opts`, each event converted to
/// an [`MdEvent`]; the contract names the result.
#[verifier::external_body]
fn markdown_events(md: &str, opts: MarkdownOptions) -> (r: Vec<MdEvent>)
    ensures
        event_views(r@) == events_of(md@, opts),
{
    Parser::new_ext(md, parser_options(opts)).map(|e| match e {
        Html(h) => MdEvent::Html(h.into_string()),
        InlineHtml(h) => MdEvent::InlineHtml(h.into_string()),
        Text(t) => MdEvent::Text(t.into_string()),
        Start(Image { link_type, dest_url: d, title, id }) => MdEvent::Image { link_type, dest: d.into_string(), title: title.into_string(), id: id.into_string() },
        Start(Link { link_type, dest_url: d, title, id }) => MdEvent::Link { link_type, dest: d.into_string(), title: title.into_string(), id: id.into_string() },
        other => MdEvent::Other(other.into_static()),
    }).collect()
}

/// The HTML `pulldown_cmark::html::push_html` writes for `events`.
pub uninterp spec fn html_of(events: Seq<MdEventView>) -> Seq<char>;

/// `pulldown_cmark::html::push_html` on the events, each converted back
/// to the parser's event; the contract names the result.
#[verifier::external_body]
fn html_of_events(events: Vec<MdEvent>) -> (r: String)
    ensures
        r@ == html_of(event_views(events@)),
{
    let mut out = String::new();
    html::push_html(&mut out, events.into_iter().map(|e| match e {
        MdEvent::Html(h) => Html(h.into()),
        MdEvent::InlineHtml(h) => InlineHtml(h.into()),
        MdEvent::Text(t) => Text(t.into()),
        MdEvent::Image { link_type, dest: d, title, id } => Start(Image { link_type, dest_url: d.into(), title: title.into(), id: id.into() }),
        MdEvent::Link { link_type, dest: d, title, id } => Start(Link { link_type, dest_url: d.into(), title: title.into(), id: id.into() }),
        MdEvent::Other(e) => e,
    }));
    out
}

/// The destinations of the image events among `es`, in order.
pub open spec fn image_dests_spec(es: Seq<MdEventView>) -> Seq<Seq<char>>
    decreases es.len(),
{
    if es.len() == 0 {
        Seq::empty()
    } else {
        let rest = image_dests_spec(es.drop_last());
        match es.last() {
            MdEventView::Image(_, d, _, _) => rest.push(d),
            _ => rest,
        }
    }
}

/// The destination of every image event, in order.
pub fn image_dests(events: &Vec<MdEvent>) -> (r: Vec<String>)
    ensures
        string_views(r@) == image_dests_spec(event_views(events@)),
{
    let ghost v = event_views(events@);
    let mut r: Vec<String> = Vec::new();
    let mut i: usize = 0;
    while i < events.len()
        invariant
            i <= events@.len(),
            v == event_views(events@),
            string_views(r@) == image_dests_spec(v.take(i as int)),
        decreases events@.len() - i,
    {
        assert(v.take(i + 1).drop_last() =~= v.take(i as int));
        assert(v.take(i + 1).last() == events@[i as int].view());
        match &events[i] {
            MdEvent::Image { dest, .. } => {
                r.push(dest.clone());
                assert(string_views(r@) =~= image_dests_spec(v.take(i as int)).push(dest@));
            },
            _ => {},
        }
        i = i + 1;
    }
    assert(v.take(events@.len() as int) =~= v);
    r
}

/// The byte lengths (in UTF-8) of the raw HTML events among `es`, block
/// and inline, in order.
pub open spec fn html_lengths_spec(es: Seq<MdEventView>) -> Seq<usize>
    decreases es.len(),
{
    if es.len() == 0 {
        Seq::empty()
    } else {
        let rest = html_lengths_spec(es.drop_last());
        match es.last() {
            MdEventView::Html(h) => rest.push(vstd::utf8::encode_utf8(h).len() as usize),
            MdEventView::InlineHtml(h) => rest.push(vstd::utf8::encode_utf8(h).len() as usize),
            _ => rest,
        }
    }
}

/// The byte length of every raw HTML event, in order.
pub fn html_lengths(events: &Vec<MdEvent>) -> (r: Vec<usize>)
    ensures
        r@ == html_lengths_spec(event_views(events@)),
{
    let ghost v = event_views(events@);
    let mut r: Vec<usize> = Vec::new();
    let mut i: usize = 0;
    while i < events.len()
        invariant
            i <= events@.len(),
            v == event_views(events@),
            r@ == html_lengths_spec(v.take(i as int)),
        decreases events@.len() - i,
    {
        assert(v.take(i + 1).drop_last() =~= v.take(i as int));
        assert(v.take(i + 1).last() == events@[i as int].view());
        match &events[i] {
            MdEvent::Html(h) => {
                r.push(h.as_str().len());
            },
            MdEvent::InlineHtml(h) => {
                r.push(h.as_str().len());
            },
            _ => {},
        }
        i = i + 1;
    }
    assert(v.take(events@.len() as int) =~= v);
    r
}

/// The companion rule for one event: raw HTML becomes text, an image's
/// destination is rewritten by [`image_dest_spec`], a link's by
/// [`link_dest_spec`]; every other event is kept.
pub open spec fn rewritten_event(e: MdEventView, tap: Seq<char>, game: Seq<char>) -> MdEventView {
    match e {
        MdEventView::Html(h) => MdEventView::Text(h),
        MdEventView::InlineHtml(h) => MdEventView::Text(h),
        MdEventView::Image(l, d, t, i) => MdEventView::Image(l, image_dest_spec(d, tap, game), t, i),
        MdEventView::Link(l, d, t, i) => MdEventView::Link(l, link_dest_spec(d, tap, game), t, i),
        other => other,
    }
}

pub open spec fn rewritten(es: Seq<MdEventView>, tap: Seq<char>, game: Seq<char>) -> Seq<MdEventView> {
    es.map_values(|e: MdEventView| rewritten_event(e, tap, game))
}

fn rewrite_event(e: MdEvent, tap_id: &str, game_id: &str) -> (r: MdEvent)
    ensures
        r.view() == rewritten_event(e.view(), tap_id@, game_id@),
{
    match e {
        MdEvent::Html(h) => MdEvent::Text(h),
        MdEvent::InlineHtml(h) => MdEvent::Text(h),
        MdEvent::Image { link_type, dest, title, id } => {
            let d = rewrite_image_dest(dest.as_str(), tap_id, game_id);
            MdEvent::Image { link_type, dest: d, title, id }
        },
        MdEvent::Link { link_type, dest, title, id } => {
            let d = rewrite_link_dest(dest.as_str(), tap_id, game_id);
            MdEvent::Link { link_type, dest: d, title, id }
        },
        other => other,
    }
}

/// Apply the companion rules to every event, in order: no raw HTML is
/// left, every image points into the content protocol of the tap and game
/// or nowhere, and Markdown links become navigation markers.
pub fn neutralize_and_rewrite(events: Vec<MdEvent>, tap_id: &str, game_id: &str) -> (r: Vec<MdEvent>)
    ensures
        event_views(r@) == rewritten(event_views(events@), tap_id@, game_id@),
        forall|i: int| 0 <= i < r@.len() ==> !(#[trigger] r@[i] is Html) && !(r@[i] is InlineHtml),
        forall|i: int| 0 <= i < r@.len() ==> (#[trigger] r@[i] matches MdEvent::Image { dest, .. } ==> (
            dest@.len() == 0 || dest@.take(21) == "reliquaint-content://"@)),
{
    let ghost orig = event_views(events@);
    let ghost n = events@.len();
    let mut events = events;
    let mut reversed: Vec<MdEvent> = Vec::new();
    while events.len() > 0
        invariant
            n == orig.len(),
            events@.len() + reversed@.len() == n,
            forall|j: int| 0 <= j < events@.len() ==> (#[trigger] events@[j]).view() == orig[j],
            forall|j: int| 0 <= j < reversed@.len() ==> (#[trigger] reversed@[j]).view() == rewritten_event(
                orig[n - 1 - j], tap_id@, game_id@),
        decreases events@.len(),
    {
        let e = events.pop().unwrap();
        reversed.push(rewrite_event(e, tap_id, game_id));
    }
    let mut out: Vec<MdEvent> = Vec::new();
    while reversed.len() > 0
        invariant
            n == orig.len(),
            reversed@.len() + out@.len() == n,
            forall|j: int| 0 <= j < reversed@.len() ==> (#[trigger] reversed@[j]).view() == rewritten_event(
                orig[n - 1 - j], tap_id@, game_id@),
            forall|j: int| 0 <= j < out@.len() ==> (#[trigger] out@[j]).view() == rewritten_event(
                orig[j], tap_id@, game_id@),
        decreases reversed@.len(),
    {
        let e = reversed.pop().unwrap();
        out.push(e);
    }
    proof {
        reveal_strlit("reliquaint-content://");
        assert(event_views(out@) =~= rewritten(orig, tap_id@, game_id@));
        assert forall|i: int| 0 <= i < out@.len() implies (#[trigger] out@[i] matches MdEvent::Image { dest, .. } ==> (
            dest@.len() == 0 || dest@.take(21) == "reliquaint-content://"@)) by {
            assert(out@[i].view() == rewritten_event(orig[i], tap_id@, game_id@));
            match orig[i] {
                MdEventView::Image(l, d, t, id) => {
                    let r = image_dest_spec(d, tap_id@, game_id@);
                    if !has_scheme_spec(d) {
                        assert(r.take(21) =~= "reliquaint-content://"@);
                    }
                },
                _ => {},
            }
        }
    }
    out
}

/// What the HTML cleaner lets through: the tags, the attributes per tag,
/// the values allowed per tag and attribute, and the URL schemes. Relative
/// URLs are always refused.
pub struct SanitizePolicy {
    pub tags: Vec<&'static str>,
    pub tag_attributes: Vec<(&'static str, Vec<&'static str>)>,
    pub attribute_values: Vec<(&'static str, &'static str, Vec<&'static str>)>,
    pub url_schemes: Vec<&'static str>,
    /// Attributes allowed on every tag.
    pub generic_attributes: Vec<&'static str>,
    /// What becomes of a relative URL.
    pub relative_urls: RelativeUrls,
}

/// What the cleaner does with a URL that has no scheme.
#[derive(Debug, Clone, Copy, PartialEq, Eq, Structural)]
pub enum RelativeUrls {
    /// Remove the attribute that holds it.
    Deny,
    /// Keep it as it is.
    PassThrough,
}

pub type PolicyView = (
    Seq<Seq<char>>,
    Seq<(Seq<char>, Seq<Seq<char>>)>,
    Seq<(Seq<char>, Seq<char>, Seq<Seq<char>>)>,
    Seq<Seq<char>>,
    Seq<Seq<char>>,
    RelativeUrls,
);

pub open spec fn strs_view(v: Seq<&'static str>) -> Seq<Seq<char>> {
    v.map_values(|s: &'static str| s@)
}

pub open spec fn policy_view(p: SanitizePolicy) -> PolicyView {
    (
        strs_view(p.tags@),
        p.tag_attributes@.map_values(|x: (&'static str, Vec<&'static str>)| (x.0@, strs_view(x.1@))),
        p.attribute_values@.map_values(|x: (&'static str, &'static str, Vec<&'static str>)| (x.0@, x.1@, strs_view(x.2@))),
        strs_view(p.url_schemes@),
        strs_view(p.generic_attributes@),
        p.relative_urls,
    )
}

/// The HTML `ammonia` makes of `html` under the policy.
pub uninterp spec fn cleaned_html_of(html: Seq<char>, policy: PolicyView) -> Seq<char>;

/// A policy `ammonia` accepts next to its defaults: `script` and `style`
/// (whose content it always removes) are neither allowed tags nor keys of
/// the attribute lists, and `rel` (which the cleaner sets itself on links)
/// is allowed neither on `a` nor on every tag.
pub open spec fn policy_admissible(v: PolicyView) -> bool {
    &&& forall|i: int| 0 <= i < v.0.len() ==> #[trigger] v.0[i] != "script"@ && v.0[i] != "style"@
    &&& forall|i: int|
        0 <= i < v.1.len() ==> {
            &&& (#[trigger] v.1[i]).0 != "script"@
            &&& v.1[i].0 != "style"@
            &&& v.1[i].0 == "a"@ ==> !v.1[i].1.contains("rel"@)
        }
    &&& !v.4.contains("rel"@)
}

/// `ammonia::Builder` set to the policy, then `clean`; the contract names
/// the result. The cleaner panics on a policy that is not admissible, so
/// such policies are left out.
#[verifier::external_body]
fn clean_html(html: &str, p: &SanitizePolicy) -> (r: String)
    requires
        policy_admissible(policy_view(*p)),
    ensures
        r@ == cleaned_html_of(html@, policy_view(*p)),
{
    let s = |v: &Vec<_>| v.iter().copied().collect::<HashSet<_>>();
    let mut vals: HashMap<_, HashMap<_, _>> = HashMap::new();
    for (t, a, v) in &p.attribute_values {
        vals.entry(*t).or_default().insert(*a, s(v));
    }
    Builder::default().tags(s(&p.tags)).tag_attributes(p.tag_attributes.iter().map(|(t, a)| (*t, s(a))).collect())
        .tag_attribute_values(vals).generic_attributes(s(&p.generic_attributes)).url_schemes(s(&p.url_schemes))
        .url_relative(match p.relative_urls {
            RelativeUrls::Deny => Deny,
            RelativeUrls::PassThrough => PassThrough,
        }).clean(html).to_string()
}

} // verus!

verus! {

/// The companion whitelist: only these tags and attributes survive, no
/// attribute is allowed on every tag; task list inputs must be checkboxes;
/// URLs must use one of four schemes, and relative URLs are removed.
pub open spec fn companion_policy_view() -> PolicyView {
    (
        seq!["p"@, "em"@, "strong"@, "code"@, "pre"@, "blockquote"@, "h1"@, "h2"@, "h3"@, "h4"@, "h5"@, "h6"@, "ul"@, "ol"@, "li"@, "a"@, "img"@, "table"@, "thead"@, "tbody"@, "tr"@, "th"@, "td"@, "hr"@, "br"@, "del"@, "input"@, "sup"@],
        seq![("a"@, seq!["href"@]), ("img"@, seq!["src"@, "alt"@]), ("input"@, seq!["type"@, "checked"@, "disabled"@])],
        seq![("input"@, "type"@, seq!["checkbox"@])],
        seq!["http"@, "https"@, "reliquaint-content"@, "reliquaint-nav"@],
        Seq::empty(),
        RelativeUrls::Deny,
    )
}

pub fn companion_sanitize_policy() -> (r: SanitizePolicy)
    ensures
        policy_view(r) == companion_policy_view(),
{
    let mut tags: Vec<&'static str> = Vec::new();
    tags.push("p");
    tags.push("em");
    tags.push("strong");
    tags.push("code");
    tags.push("pre");
    tags.push("blockquote");
    tags.push("h1");
    tags.push("h2");
    tags.push("h3");
    tags.push("h4");
    tags.push("h5");
    tags.push("h6");
    tags.push("ul");
    tags.push("ol");
    tags.push("li");
    tags.push("a");
    tags.push("img");
    tags.push("table");
    tags.push("thead");
    tags.push("tbody");
    tags.push("tr");
    tags.push("th");
    tags.push("td");
    tags.push("hr");
    tags.push("br");
    tags.push("del");
    tags.push("input");
    tags.push("sup");
    let mut a: Vec<&'static str> = Vec::new();
    a.push("href");
    let mut img: Vec<&'static str> = Vec::new();
    img.push("src");
    img.push("alt");
    let mut input: Vec<&'static str> = Vec::new();
    input.push("type");
    input.push("checked");
    input.push("disabled");
    let mut tag_attributes: Vec<(&'static str, Vec<&'static str>)> = Vec::new();
    tag_attributes.push(("a", a));
    tag_attributes.push(("img", img));
    tag_attributes.push(("input", input));
    let mut checkbox: Vec<&'static str> = Vec::new();
    checkbox.push("checkbox");
    let mut attribute_values: Vec<(&'static str, &'static str, Vec<&'static str>)> = Vec::new();
    attribute_values.push(("input", "type", checkbox));
    let mut url_schemes: Vec<&'static str> = Vec::new();
    url_schemes.push("http");
    url_schemes.push("https");
    url_schemes.push("reliquaint-content");
    url_schemes.push("reliquaint-nav");
    let generic_attributes: Vec<&'static str> = Vec::new();
    let p = SanitizePolicy {
        tags,
        tag_attributes,
        attribute_values,
        url_schemes,
        generic_attributes,
        relative_urls: RelativeUrls::Deny,
    };
    proof {
        let v = companion_policy_view();
        assert(policy_view(p).0 =~= v.0);
        assert(strs_view(p.tag_attributes@[0].1@) =~= seq!["href"@]);
        assert(strs_view(p.tag_attributes@[1].1@) =~= seq!["src"@, "alt"@]);
        assert(strs_view(p.tag_attributes@[2].1@) =~= seq!["type"@, "checked"@, "disabled"@]);
        assert(policy_view(p).1 =~= v.1);
        assert(strs_view(p.attribute_values@[0].2@) =~= seq!["checkbox"@]);
        assert(policy_view(p).2 =~= v.2);
        assert(policy_view(p).3 =~= v.3);
        assert(policy_view(p).4 =~= v.4);
    }
    p
}

proof fn lemma_companion_policy_admissible()
    ensures
        policy_admissible(companion_policy_view()),
{
    reveal_strlit("script");
    reveal_strlit("style");
    reveal_strlit("rel");
    reveal_strlit("p");
    reveal_strlit("em");
    reveal_strlit("strong");
    reveal_strlit("code");
    reveal_strlit("pre");
    reveal_strlit("blockquote");
    reveal_strlit("h1");
    reveal_strlit("h2");
    reveal_strlit("h3");
    reveal_strlit("h4");
    reveal_strlit("h5");
    reveal_strlit("h6");
    reveal_strlit("ul");
    reveal_strlit("ol");
    reveal_strlit("li");
    reveal_strlit("a");
    reveal_strlit("img");
    reveal_strlit("table");
    reveal_strlit("thead");
    reveal_strlit("tbody");
    reveal_strlit("tr");
    reveal_strlit("th");
    reveal_strlit("td");
    reveal_strlit("hr");
    reveal_strlit("br");
    reveal_strlit("del");
    reveal_strlit("input");
    reveal_strlit("sup");
    reveal_strlit("href");
    let v = companion_policy_view();
    assert forall|i: int| 0 <= i < v.0.len() implies #[trigger] v.0[i] != "script"@ && v.0[i] != "style"@ by {
        assert(v.0[i].len() != 6 || v.0[i][1] != 'c');
        assert(v.0[i].len() != 5 || v.0[i][1] != 't');
    }
    assert("href"@.len() == 4 && "rel"@.len() == 3);
    assert forall|i: int| 0 <= i < v.1.len() implies {
        &&& (#[trigger] v.1[i]).0 != "script"@
        &&& v.1[i].0 != "style"@
        &&& v.1[i].0 == "a"@ ==> !v.1[i].1.contains("rel"@)
    } by {
        assert(v.1[i].0[0] != 's');
        if i == 0 {
            assert(v.1[0].1.len() == 1 && v.1[0].1[0] == "href"@);
            assert(v.1[0].1[0] != "rel"@);
        }
        if i > 0 {
            assert(v.1[i].0 != "a"@);
        }
    }
}

/// Clean rendered HTML against the companion whitelist.
pub fn sanitize(html: &str) -> (r: String)
    ensures
        r@ == cleaned_html_of(html@, companion_policy_view()),
{
    let p = companion_sanitize_policy();
    proof {
        lemma_companion_policy_admissible();
    }
    clean_html(html, &p)
}

/// Render companion Markdown to HTML that is safe to show: raw HTML
/// escaped, relative images and Markdown links rewritten for `tap_id` and
/// `game_id`, scheme'd image sources dropped, the result cleaned against
/// the companion whitelist.
pub fn render_markdown(md: &str, tap_id: &str, game_id: &str) -> (r: String)
    ensures
        r@ == cleaned_html_of(
            html_of(rewritten(events_of(md@, companion_options_spec()), tap_id@, game_id@)),
            companion_policy_view(),
        ),
{
    let events = markdown_events(md, companion_markdown_options());
    let safe = neutralize_and_rewrite(events, tap_id, game_id);
    let html = html_of_events(safe);
    sanitize(html.as_str())
}

} // verus!
