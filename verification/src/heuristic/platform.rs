//! Platform classification: DOS, Amiga, or unknown, from the kinds of
//! files at the top of a directory. Each kind of file scores for one
//! platform; indicators of both platforms leave the result undecided.

use vstd::prelude::*;
use crate::catalog::Platform;
use crate::heuristic::ListedEntry;
use crate::text::{
    chars_of, decimal, ends_with, ends_with_exec, owned, push_decimal, push_str, rsplit_once,
    rsplit_once_exec, seq_eq, starts_with, starts_with_exec, string_views, upper_seq, upper_vec,
};

verus! {

#[derive(Debug, Clone, PartialEq, Eq)]
pub struct PlatformDetection {
    pub platform: Option<Platform>,
    pub confidence: Confidence,
    /// Human-readable reasons, in a fixed order.
    pub evidence: Vec<String>,
}

#[derive(Debug, Clone, Copy, PartialEq, Eq, Structural, PartialOrd, Ord)]
pub enum Confidence {
    Unknown,
    Low,
    Medium,
    High,
}

impl PlatformDetection {
    pub open spec fn view(&self) -> (Option<Platform>, Confidence, Seq<Seq<char>>) {
        (self.platform, self.confidence, string_views(self.evidence@))
    }
}

/// The kinds of file the classifier counts.
pub enum FileKind {
    Bat,
    Exe,
    Com,
    Adf,
    Rom,
    Hdf,
    Slave,
    Info,
}

/// The upper-cased text after the last `.` of `name`, if it has one.
pub open spec fn upper_ext(name: Seq<char>) -> Option<Seq<char>> {
    match rsplit_once(upper_seq(name), '.') {
        Some(parts) => Some(parts.1),
        None => None,
    }
}

#[verifier::opaque]
pub open spec fn counts_as(e: ListedEntry, k: FileKind) -> bool {
    e.is_file && match k {
        FileKind::Bat => upper_ext(e.name@) == Some("BAT"@),
        FileKind::Exe => upper_ext(e.name@) == Some("EXE"@),
        FileKind::Com => upper_ext(e.name@) == Some("COM"@),
        FileKind::Adf => upper_ext(e.name@) == Some("ADF"@),
        FileKind::Rom => upper_ext(e.name@) == Some("ROM"@),
        FileKind::Hdf => upper_ext(e.name@) == Some("HDF"@),
        FileKind::Slave => upper_ext(e.name@) == Some("SLAVE"@),
        FileKind::Info => ends_with(upper_seq(e.name@), ".INFO"@),
    }
}

/// How many entries of `es` are files of kind `k`.
#[verifier::opaque]
pub open spec fn count(es: Seq<ListedEntry>, k: FileKind) -> nat
    decreases es.len(),
{
    if es.len() == 0 {
        0
    } else {
        count(es.drop_last(), k) + if counts_as(es.last(), k) {
            1nat
        } else {
            0nat
        }
    }
}

/// Is `e` the Sierra SCI `RESOURCE.000` file?
#[verifier::opaque]
pub open spec fn is_sci_resource(e: ListedEntry) -> bool {
    e.is_file && upper_seq(e.name@) == "RESOURCE.000"@
}

/// Is `e` a file whose extension starts with `SCI`?
#[verifier::opaque]
pub open spec fn is_sci_file(e: ListedEntry) -> bool {
    e.is_file && match upper_ext(e.name@) {
        Some(x) => starts_with(x, "SCI"@),
        None => false,
    }
}

pub open spec fn any_sci_resource(es: Seq<ListedEntry>) -> bool
    decreases es.len(),
{
    es.len() > 0 && (any_sci_resource(es.drop_last()) || is_sci_resource(es.last()))
}

pub open spec fn any_sci_file(es: Seq<ListedEntry>) -> bool
    decreases es.len(),
{
    es.len() > 0 && (any_sci_file(es.drop_last()) || is_sci_file(es.last()))
}

pub open spec fn dos_score_of(bat: nat, exe: nat, com: nat, sci_resource: bool, sci_file: bool) -> nat {
    3 * bat + 2 * exe + 2 * com + (if sci_resource {
        5nat
    } else {
        0nat
    }) + (if sci_file {
        2nat
    } else {
        0nat
    })
}

pub open spec fn amiga_score_of(
    adf: nat,
    rom: nat,
    info: nat,
    startup: bool,
    slave: nat,
    hdf: nat,
) -> nat {
    4 * adf + 2 * rom + 2 * info + (if startup {
        5nat
    } else {
        0nat
    }) + 3 * slave + 3 * hdf
}

pub open spec fn dos_score(es: Seq<ListedEntry>) -> nat {
    dos_score_of(
        count(es, FileKind::Bat),
        count(es, FileKind::Exe),
        count(es, FileKind::Com),
        any_sci_resource(es),
        any_sci_file(es),
    )
}

pub open spec fn amiga_score(es: Seq<ListedEntry>, startup: bool) -> nat {
    amiga_score_of(
        count(es, FileKind::Adf),
        count(es, FileKind::Rom),
        count(es, FileKind::Info),
        startup,
        count(es, FileKind::Slave),
        count(es, FileKind::Hdf),
    )
}

/// Scores for both platforms leave the platform open; otherwise the
/// higher score wins, with a confidence by its size.
pub open spec fn classify_spec(dos: nat, amiga: nat) -> (Option<Platform>, Confidence) {
    if dos == 0 && amiga == 0 {
        (None, Confidence::Unknown)
    } else if dos > 0 && amiga > 0 {
        (None, Confidence::Low)
    } else {
        let winner = if dos >= amiga {
            Platform::Dos
        } else {
            Platform::Amiga
        };
        let score = if dos >= amiga {
            dos
        } else {
            amiga
        };
        (
            Some(winner),
            if score <= 3 {
                Confidence::Low
            } else if score <= 7 {
                Confidence::Medium
            } else {
                Confidence::High
            },
        )
    }
}

pub open spec fn plural(n: nat) -> Seq<char> {
    if n == 1 {
        Seq::empty()
    } else {
        seq!['s']
    }
}

pub open spec fn count_line(n: nat, what: Seq<char>) -> Seq<char> {
    decimal(n) + what + plural(n)
}

pub open spec fn opt_line(present: bool, line: Seq<char>) -> Seq<Seq<char>> {
    if present {
        seq![line]
    } else {
        Seq::empty()
    }
}

/// The evidence lines for the given counts and markers, in the order the
/// classifier reports them.
pub open spec fn evidence_lines(
    bat: nat,
    exe: nat,
    com: nat,
    sci_resource: bool,
    sci_file: bool,
    adf: nat,
    rom: nat,
    info: nat,
    startup: bool,
    slave: nat,
    hdf: nat,
) -> Seq<Seq<char>> {
    Seq::<Seq<char>>::empty() + opt_line(bat > 0, count_line(bat, " .BAT file"@)) + opt_line(
        exe > 0,
        count_line(exe, " .EXE file"@),
    ) + opt_line(com > 0, count_line(com, " .COM file"@)) + opt_line(
        sci_resource,
        "RESOURCE.000 (Sierra SCI engine marker)"@,
    ) + opt_line(sci_file, "`.SCI*` files"@) + opt_line(
        adf > 0,
        count_line(adf, " .ADF disk image"@),
    ) + opt_line(rom > 0, count_line(rom, " .ROM file"@)) + opt_line(
        info > 0,
        count_line(info, " .info icon"@),
    ) + opt_line(startup, "S/Startup-Sequence"@) + opt_line(
        slave > 0,
        count_line(slave, " .slave file"@) + " (WHDLoad)"@,
    ) + opt_line(hdf > 0, count_line(hdf, " .hdf file"@))
}

pub open spec fn evidence_spec(es: Seq<ListedEntry>, startup: bool) -> Seq<Seq<char>> {
    evidence_lines(
        count(es, FileKind::Bat),
        count(es, FileKind::Exe),
        count(es, FileKind::Com),
        any_sci_resource(es),
        any_sci_file(es),
        count(es, FileKind::Adf),
        count(es, FileKind::Rom),
        count(es, FileKind::Info),
        startup,
        count(es, FileKind::Slave),
        count(es, FileKind::Hdf),
    )
}

/// What [`detect`] returns for the listing `es`.
pub open spec fn detect_spec_view(es: Seq<ListedEntry>, startup: bool) -> (
    Option<Platform>,
    Confidence,
    Seq<Seq<char>>,
) {
    if es.len() == 0 {
        (None, Confidence::Unknown, seq!["directory is empty or unreadable"@])
    } else {
        let c = classify_spec(dos_score(es), amiga_score(es, startup));
        (c.0, c.1, evidence_spec(es, startup))
    }
}

fn classify(dos: u32, amiga: u32) -> (r: (Option<Platform>, Confidence))
    ensures
        r == classify_spec(dos as nat, amiga as nat),
{
    if dos == 0 && amiga == 0 {
        return (None, Confidence::Unknown);
    }
    if dos > 0 && amiga > 0 {
        return (None, Confidence::Low);
    }
    let (winner, score) = if dos >= amiga {
        (Platform::Dos, dos)
    } else {
        (Platform::Amiga, amiga)
    };
    let confidence = if score <= 3 {
        Confidence::Low
    } else if score <= 7 {
        Confidence::Medium
    } else {
        Confidence::High
    };
    (Some(winner), confidence)
}

fn count_line_exec(n: u64, what: &str) -> (r: String)
    ensures
        r@ == count_line(n as nat, what@),
{
    let mut s = String::new();
    push_decimal(&mut s, n as u64);
    push_str(&mut s, what);
    if n != 1 {
        push_str(&mut s, "s");
        proof {
            reveal_strlit("s");
        }
    }
    assert(s@ =~= count_line(n as nat, what@));
    s
}

fn push_line(ev: &mut Vec<String>, present: bool, line: String)
    ensures
        string_views(final(ev)@) == string_views(old(ev)@) + opt_line(present, line@),
{
    let ghost before = ev@;
    if present {
        ev.push(line);
    }
    assert(string_views(ev@) =~= string_views(before) + opt_line(present, line@));
}

fn eq_lit(v: &Vec<char>, lit: &str) -> (r: bool)
    ensures
        r == (v@ == lit@),
{
    let l = chars_of(lit);
    seq_eq(v.as_slice(), l.as_slice())
}

proof fn reveal_kinds()
    ensures
        "BAT"@ =~= seq!['B', 'A', 'T'],
        "EXE"@ =~= seq!['E', 'X', 'E'],
        "COM"@ =~= seq!['C', 'O', 'M'],
        "ADF"@ =~= seq!['A', 'D', 'F'],
        "ROM"@ =~= seq!['R', 'O', 'M'],
        "HDF"@ =~= seq!['H', 'D', 'F'],
        "SLAVE"@ =~= seq!['S', 'L', 'A', 'V', 'E'],
{
    reveal_strlit("BAT");
    reveal_strlit("EXE");
    reveal_strlit("COM");
    reveal_strlit("ADF");
    reveal_strlit("ROM");
    reveal_strlit("HDF");
    reveal_strlit("SLAVE");
}

/// What one entry counts towards.
struct EntryKinds {
    bat: bool,
    exe: bool,
    com: bool,
    adf: bool,
    rom: bool,
    hdf: bool,
    slave: bool,
    info: bool,
    sci_resource: bool,
    sci_file: bool,
}

fn kinds_of(e: &ListedEntry) -> (r: EntryKinds)
    ensures
        r.bat == counts_as(*e, FileKind::Bat),
        r.exe == counts_as(*e, FileKind::Exe),
        r.com == counts_as(*e, FileKind::Com),
        r.adf == counts_as(*e, FileKind::Adf),
        r.rom == counts_as(*e, FileKind::Rom),
        r.hdf == counts_as(*e, FileKind::Hdf),
        r.slave == counts_as(*e, FileKind::Slave),
        r.info == counts_as(*e, FileKind::Info),
        r.sci_resource == is_sci_resource(*e),
        r.sci_file == is_sci_file(*e),
{
    let mut r = EntryKinds {
        bat: false,
        exe: false,
        com: false,
        adf: false,
        rom: false,
        hdf: false,
        slave: false,
        info: false,
        sci_resource: false,
        sci_file: false,
    };
    proof {
        reveal(counts_as);
        reveal(is_sci_resource);
        reveal(is_sci_file);
    }
    if !e.is_file {
        return r;
    }
    proof {
        reveal_kinds();
    }
    let upper = upper_vec(chars_of(e.name.as_str()).as_slice());
    match rsplit_once_exec(upper.as_slice(), '.') {
        Some((_, ext)) => {
            if eq_lit(&ext, "BAT") {
                r.bat = true;
            } else if eq_lit(&ext, "EXE") {
                r.exe = true;
            } else if eq_lit(&ext, "COM") {
                r.com = true;
            } else if eq_lit(&ext, "ADF") {
                r.adf = true;
            } else if eq_lit(&ext, "ROM") {
                r.rom = true;
            } else if eq_lit(&ext, "HDF") {
                r.hdf = true;
            } else if eq_lit(&ext, "SLAVE") {
                r.slave = true;
            }
            let sci = chars_of("SCI");
            r.sci_file = starts_with_exec(ext.as_slice(), sci.as_slice());
        },
        None => {},
    }
    r.sci_resource = eq_lit(&upper, "RESOURCE.000");
    let dot_info = chars_of(".INFO");
    r.info = ends_with_exec(upper.as_slice(), dot_info.as_slice());
    r
}

/// The counts the scores are made of.
proof fn lemma_count_step(es: Seq<ListedEntry>, i: int)
    requires
        0 <= i < es.len(),
    ensures
        forall|k: FileKind| #[trigger] count(es.take(i + 1), k) == count(es.take(i), k) + if counts_as(es[i], k) {
            1nat
        } else {
            0nat
        },
        any_sci_resource(es.take(i + 1)) == (any_sci_resource(es.take(i)) || is_sci_resource(es[i])),
        any_sci_file(es.take(i + 1)) == (any_sci_file(es.take(i)) || is_sci_file(es[i])),
{
    reveal(count);
    assert(es.take(i + 1).drop_last() =~= es.take(i));
}

fn bump(n: u64, b: bool) -> (r: u64)
    requires
        n < 0xffff_ffff_ffff_ffff,
    ensures
        r == n + if b {
            1nat
        } else {
            0nat
        },
{
    if b {
        n + 1
    } else {
        n
    }
}

proof fn lemma_count_empty(es: Seq<ListedEntry>)
    requires
        es.len() == 0,
    ensures
        forall|k: FileKind| #[trigger] count(es, k) == 0,
{
    reveal(count);
}

struct Tally {
    bat: u64,
    exe: u64,
    com: u64,
    adf: u64,
    rom: u64,
    info: u64,
    slave: u64,
    hdf: u64,
    sci_resource: bool,
    sci_file: bool,
}

spec fn tally_of(t: Tally, es: Seq<ListedEntry>) -> bool {
    &&& t.bat == count(es, FileKind::Bat)
    &&& t.exe == count(es, FileKind::Exe)
    &&& t.com == count(es, FileKind::Com)
    &&& t.adf == count(es, FileKind::Adf)
    &&& t.rom == count(es, FileKind::Rom)
    &&& t.info == count(es, FileKind::Info)
    &&& t.slave == count(es, FileKind::Slave)
    &&& t.hdf == count(es, FileKind::Hdf)
    &&& t.sci_resource == any_sci_resource(es)
    &&& t.sci_file == any_sci_file(es)
}

fn tally(entries: &Vec<ListedEntry>) -> (t: Tally)
    ensures
        tally_of(t, entries@),
        t.bat <= entries@.len() && t.exe <= entries@.len() && t.com <= entries@.len(),
        t.adf <= entries@.len() && t.rom <= entries@.len() && t.info <= entries@.len(),
        t.slave <= entries@.len() && t.hdf <= entries@.len(),
{
    let mut t = Tally {
        bat: 0,
        exe: 0,
        com: 0,
        adf: 0,
        rom: 0,
        info: 0,
        slave: 0,
        hdf: 0,
        sci_resource: false,
        sci_file: false,
    };
    let mut i: usize = 0;
    proof {
        lemma_count_empty(entries@.take(0));
    }
    while i < entries.len()
        invariant
            i <= entries@.len(),
            tally_of(t, entries@.take(i as int)),
            t.bat <= i && t.exe <= i && t.com <= i && t.adf <= i,
            t.rom <= i && t.info <= i && t.slave <= i && t.hdf <= i,
        decreases entries@.len() - i,
    {
        let e = &entries[i];
        proof {
            lemma_count_step(entries@, i as int);
        }
        let k = kinds_of(e);
        t.bat = bump(t.bat, k.bat);
        t.exe = bump(t.exe, k.exe);
        t.com = bump(t.com, k.com);
        t.adf = bump(t.adf, k.adf);
        t.rom = bump(t.rom, k.rom);
        t.info = bump(t.info, k.info);
        t.slave = bump(t.slave, k.slave);
        t.hdf = bump(t.hdf, k.hdf);
        t.sci_resource = t.sci_resource || k.sci_resource;
        t.sci_file = t.sci_file || k.sci_file;
        i = i + 1;
    }
    assert(entries@.take(entries@.len() as int) =~= entries@);
    t
}

fn evidence_of(t: &Tally, startup: bool) -> (r: Vec<String>)
    ensures
        string_views(r@) == evidence_lines(
            t.bat as nat,
            t.exe as nat,
            t.com as nat,
            t.sci_resource,
            t.sci_file,
            t.adf as nat,
            t.rom as nat,
            t.info as nat,
            startup,
            t.slave as nat,
            t.hdf as nat,
        ),
{
    let mut evidence: Vec<String> = Vec::new();
    assert(string_views(evidence@) =~= Seq::<Seq<char>>::empty());
    push_line(&mut evidence, t.bat > 0, count_line_exec(t.bat, " .BAT file"));
    push_line(&mut evidence, t.exe > 0, count_line_exec(t.exe, " .EXE file"));
    push_line(&mut evidence, t.com > 0, count_line_exec(t.com, " .COM file"));
    push_line(&mut evidence, t.sci_resource, owned("RESOURCE.000 (Sierra SCI engine marker)"));
    push_line(&mut evidence, t.sci_file, owned("`.SCI*` files"));
    push_line(&mut evidence, t.adf > 0, count_line_exec(t.adf, " .ADF disk image"));
    push_line(&mut evidence, t.rom > 0, count_line_exec(t.rom, " .ROM file"));
    push_line(&mut evidence, t.info > 0, count_line_exec(t.info, " .info icon"));
    push_line(&mut evidence, startup, owned("S/Startup-Sequence"));
    let mut slave_line = count_line_exec(t.slave, " .slave file");
    push_str(&mut slave_line, " (WHDLoad)");
    push_line(&mut evidence, t.slave > 0, slave_line);
    push_line(&mut evidence, t.hdf > 0, count_line_exec(t.hdf, " .hdf file"));
    evidence
}

/// Do both scores fit the 32-bit counters they are kept in?
pub open spec fn scores_fit_spec(es: Seq<ListedEntry>, startup: bool) -> bool {
    dos_score(es) <= u32::MAX && amiga_score(es, startup) <= u32::MAX
}

/// Whether [`detect`] can score the listing: both scores fit 32 bits.
pub fn scores_fit(entries: &Vec<ListedEntry>, startup_sequence: bool) -> (r: bool)
    ensures
        r == scores_fit_spec(entries@, startup_sequence),
{
    let t = tally(entries);
    let dos: u128 = 3 * (t.bat as u128) + 2 * (t.exe as u128) + 2 * (t.com as u128) + if t.sci_resource {
        5u128
    } else {
        0u128
    } + if t.sci_file {
        2u128
    } else {
        0u128
    };
    let amiga: u128 = 4 * (t.adf as u128) + 2 * (t.rom as u128) + 2 * (t.info as u128) + if startup_sequence {
        5u128
    } else {
        0u128
    } + 3 * (t.slave as u128) + 3 * (t.hdf as u128);
    assert(dos == dos_score(entries@));
    assert(amiga == amiga_score(entries@, startup_sequence));
    dos <= 0xffff_ffffu128 && amiga <= 0xffff_ffffu128
}

/// Classify the directory listed by `entries`; `startup_sequence` says
/// whether `S/Startup-Sequence` (or `s/startup-sequence`) is a file there.
/// The scores are kept in 32 bits, so listings whose scores do not fit are
/// left out.
pub fn detect(entries: &Vec<ListedEntry>, startup_sequence: bool) -> (r: PlatformDetection)
    requires
        scores_fit_spec(entries@, startup_sequence),
    ensures
        r.view() == detect_spec_view(entries@, startup_sequence),
{
    if entries.len() == 0 {
        let mut evidence: Vec<String> = Vec::new();
        evidence.push(owned("directory is empty or unreadable"));
        assert(string_views(evidence@) =~= seq!["directory is empty or unreadable"@]);
        return PlatformDetection { platform: None, confidence: Confidence::Unknown, evidence };
    }
    let t = tally(entries);
    let bat = t.bat as u32;
    let exe = t.exe as u32;
    let com = t.com as u32;
    let mut dos: u32 = 3 * bat + 2 * exe + 2 * com;
    if t.sci_resource {
        dos = dos + 5;
    }
    if t.sci_file {
        dos = dos + 2;
    }
    let adf = t.adf as u32;
    let rom = t.rom as u32;
    let info = t.info as u32;
    let slave = t.slave as u32;
    let hdf = t.hdf as u32;
    let mut amiga: u32 = 4 * adf + 2 * rom + 2 * info;
    if startup_sequence {
        amiga = amiga + 5;
    }
    amiga = amiga + 3 * slave + 3 * hdf;
    let evidence = evidence_of(&t, startup_sequence);
    assert(dos == dos_score(entries@));
    assert(amiga == amiga_score(entries@, startup_sequence));
    let (platform, confidence) = classify(dos, amiga);
    PlatformDetection { platform, confidence, evidence }
}

} // verus!
