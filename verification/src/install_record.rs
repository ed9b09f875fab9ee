//! Install records (`installs/<catalog-id>.toml`): where a catalog entry
//! was installed on this machine, from which tap, and when. The catalog
//! says what a game is; the record says where this copy lives.

use vstd::prelude::*;
use crate::paths::{expand_tilde, tilde_form};
use crate::text::{
    chars_of, decimal, lower_seq, lower_vec, owned, push_char, push_decimal, seq_eq,
    string_views,
};

verus! {

#[derive(Debug, Clone, PartialEq, Eq)]
pub struct InstallRecord {
    pub schema_version: u32,
    pub install: Install,
}

#[derive(Debug, Clone, PartialEq, Eq)]
pub struct Install {
    pub catalog_id: String,
    pub tap: String,
    /// Absolute path of the installed game (after `~` expansion).
    pub install_path: String,
    /// When it was installed, as a TOML datetime.
    pub installed_at: String,
}

#[derive(Debug, Clone, PartialEq, Eq)]
pub struct LoadedInstallRecord {
    /// The record file it was read from.
    pub source_path: String,
    pub record: InstallRecord,
}

#[derive(Debug)]
pub enum InstallError {
    Read { path: String, message: String },
    Write { path: String, message: String },
    Parse { path: String, message: String },
    Serialize { message: String },
    UnsupportedSchema { path: String, version: u32 },
    NonAbsoluteInstallPath { path: String, install_path: String },
    PathAccess { path: String, message: String },
    NotADirectory { path: String },
    CreateInstallsDir { path: String, message: String },
    TimestampFormat { message: String },
}

/// An exact copy of `r`.
pub fn copy_record(r: &InstallRecord) -> (c: InstallRecord)
    ensures
        c == *r,
{
    InstallRecord {
        schema_version: r.schema_version,
        install: Install {
            catalog_id: r.install.catalog_id.clone(),
            tap: r.install.tap.clone(),
            install_path: r.install.install_path.clone(),
            installed_at: r.install.installed_at.clone(),
        },
    }
}

/// An exact copy of `l`.
pub fn copy_loaded(l: &LoadedInstallRecord) -> (c: LoadedInstallRecord)
    ensures
        c == *l,
{
    LoadedInstallRecord { source_path: l.source_path.clone(), record: copy_record(&l.record) }
}

/// The checks a parsed record must pass, `path` naming the file: schema
/// version 1, and an install path that is absolute once a leading `~` is
/// expanded. The record comes back with its path expanded.
pub fn check_record(record: InstallRecord, path: &str) -> (r: Result<InstallRecord, InstallError>)
    ensures
        match r {
            Ok(out) => {
                &&& record.schema_version == 1
                &&& out.schema_version == 1
                &&& out.install.catalog_id == record.install.catalog_id
                &&& out.install.tap == record.install.tap
                &&& out.install.installed_at == record.install.installed_at
                &&& out.install.install_path@.len() > 0 && out.install.install_path@[0] == '/'
                &&& (record.install.install_path@.len() == 0 || record.install.install_path@[0] != '~')
                    ==> out.install.install_path@ == record.install.install_path@
            },
            Err(InstallError::UnsupportedSchema { path: p, version }) => record.schema_version != 1
                && p@ == path@ && version == record.schema_version,
            Err(InstallError::NonAbsoluteInstallPath { path: p, install_path }) => {
                &&& record.schema_version == 1
                &&& p@ == path@
                &&& !(install_path@.len() > 0 && install_path@[0] == '/')
                &&& (record.install.install_path@.len() == 0 || record.install.install_path@[0] != '~')
                    ==> install_path@ == record.install.install_path@
            },
            Err(_) => false,
        },
{
    if record.schema_version != 1 {
        return Err(InstallError::UnsupportedSchema { path: owned(path), version: record.schema_version });
    }
    let mut record = record;
    let cs = chars_of(record.install.install_path.as_str());
    if cs.len() > 0 && cs[0] == '~' {
        record.install.install_path = expand_tilde(record.install.install_path.as_str());
    }
    let ps = chars_of(record.install.install_path.as_str());
    if !(ps.len() > 0 && ps[0] == '/') {
        return Err(
            InstallError::NonAbsoluteInstallPath {
                path: owned(path),
                install_path: record.install.install_path.clone(),
            },
        );
    }
    Ok(record)
}

/// Does some name of `entries` equal `name` ignoring ASCII case?
pub open spec fn listed(entries: Seq<Seq<char>>, name: Seq<char>) -> bool {
    exists|i: int| 0 <= i < entries.len() && lower_seq(#[trigger] entries[i]) == lower_seq(name)
}

/// The expected names with no entry of the same name (ASCII case aside),
/// in order.
pub open spec fn missing_spec(entries: Seq<Seq<char>>, expected: Seq<Seq<char>>) -> Seq<Seq<char>>
    decreases expected.len(),
{
    if expected.len() == 0 {
        Seq::empty()
    } else if listed(entries, expected.last()) {
        missing_spec(entries, expected.drop_last())
    } else {
        missing_spec(entries, expected.drop_last()).push(expected.last())
    }
}

/// Which of the files an entry expects are not among the names listed in
/// its install directory (compared ignoring ASCII case).
pub fn missing_expects_files(entries: &Vec<String>, expected: &Vec<String>) -> (r: Vec<String>)
    ensures
        string_views(r@) == missing_spec(string_views(entries@), string_views(expected@)),
{
    let ghost ev = string_views(entries@);
    let ghost xv = string_views(expected@);
    let mut lowered: Vec<Vec<char>> = Vec::new();
    let mut k: usize = 0;
    while k < entries.len()
        invariant
            k <= entries@.len(),
            ev == string_views(entries@),
            lowered@.len() == k,
            forall|q: int| 0 <= q < k ==> (#[trigger] lowered@[q])@ == lower_seq(ev[q]),
        decreases entries@.len() - k,
    {
        lowered.push(lower_vec(chars_of(entries[k].as_str()).as_slice()));
        k = k + 1;
    }
    let mut out: Vec<String> = Vec::new();
    let mut i: usize = 0;
    while i < expected.len()
        invariant
            i <= expected@.len(),
            ev == string_views(entries@),
            xv == string_views(expected@),
            lowered@.len() == ev.len(),
            forall|q: int| 0 <= q < ev.len() ==> (#[trigger] lowered@[q])@ == lower_seq(ev[q]),
            string_views(out@) == missing_spec(ev, xv.take(i as int)),
        decreases expected@.len() - i,
    {
        assert(xv.take(i + 1).drop_last() =~= xv.take(i as int));
        assert(xv[i as int] == expected@[i as int]@);
        let want = lower_vec(chars_of(expected[i].as_str()).as_slice());
        let mut found = false;
        let mut j: usize = 0;
        while j < lowered.len()
            invariant
                j <= lowered@.len(),
                lowered@.len() == ev.len(),
                forall|q: int| 0 <= q < ev.len() ==> (#[trigger] lowered@[q])@ == lower_seq(ev[q]),
                want@ == lower_seq(xv[i as int]),
                found == exists|q: int| 0 <= q < j && lower_seq(#[trigger] ev[q]) == lower_seq(xv[i as int]),
            decreases lowered@.len() - j,
        {
            if seq_eq(lowered[j].as_slice(), want.as_slice()) {
                found = true;
            }
            assert(lowered@[j as int]@ == lower_seq(ev[j as int]));
            j = j + 1;
        }
        if !found {
            let ghost before = out@;
            out.push(expected[i].clone());
            assert(string_views(out@) =~= string_views(before).push(xv[i as int]));
        }
        i = i + 1;
    }
    assert(xv.take(expected@.len() as int) =~= xv);
    out
}

/// `n` in decimal, zero-padded on the left to `width` digits.
pub open spec fn padded(n: nat, width: nat) -> Seq<char> {
    let d = decimal(n);
    if d.len() < width {
        Seq::new((width - d.len()) as nat, |i: int| '0') + d
    } else {
        d
    }
}

fn push_padded(s: &mut String, n: u32, width: usize)
    ensures
        final(s)@ == old(s)@ + padded(n as nat, width as nat),
{
    let mut digits = String::new();
    push_decimal(&mut digits, n as u64);
    let dc = chars_of(digits.as_str());
    let ghost start = s@;
    if dc.len() < width {
        let pad = width - dc.len();
        let mut k: usize = 0;
        while k < pad
            invariant
                k <= pad,
                s@ == start + Seq::new(k as nat, |i: int| '0'),
            decreases pad - k,
        {
            push_char(s, '0');
            k = k + 1;
            assert(s@ =~= start + Seq::new(k as nat, |i: int| '0'));
        }
    }
    crate::text::push_str(s, digits.as_str());
    assert(s@ =~= start + padded(n as nat, width as nat));
}

pub open spec fn iso8601_spec(year: nat, month: nat, day: nat, hour: nat, minute: nat, second: nat) -> Seq<char> {
    padded(year, 4) + seq!['-'] + padded(month, 2) + seq!['-'] + padded(day, 2) + seq!['T']
        + padded(hour, 2) + seq![':'] + padded(minute, 2) + seq![':'] + padded(second, 2)
        + seq!['Z']
}

/// A UTC timestamp as `YYYY-MM-DDTHH:MM:SSZ`, each field zero-padded.
pub fn iso8601_utc(year: u32, month: u32, day: u32, hour: u32, minute: u32, second: u32) -> (r: String)
    ensures
        r@ == iso8601_spec(year as nat, month as nat, day as nat, hour as nat, minute as nat, second as nat),
{
    let mut s = String::new();
    push_padded(&mut s, year, 4);
    push_char(&mut s, '-');
    push_padded(&mut s, month, 2);
    push_char(&mut s, '-');
    push_padded(&mut s, day, 2);
    push_char(&mut s, 'T');
    push_padded(&mut s, hour, 2);
    push_char(&mut s, ':');
    push_padded(&mut s, minute, 2);
    push_char(&mut s, ':');
    push_padded(&mut s, second, 2);
    push_char(&mut s, 'Z');
    s
}

} // verus!

verus! {

impl InstallError {
    /// The text of the error.
    pub open spec fn message_view(&self) -> Seq<char> {
        match self {
            InstallError::Read { path, message } => "failed to read install record "@ + path@ + ": "@ + message@,
            InstallError::Write { path, message } => "failed to write install record "@ + path@ + ": "@ + message@,
            InstallError::Parse { path, message } => "failed to parse install record "@ + path@ + ": "@ + message@,
            InstallError::Serialize { message } => "failed to serialize install record: "@ + message@,
            InstallError::UnsupportedSchema { path, version } => "unsupported schema_version "@ + crate::text::decimal(*version as nat) + " in "@ + path@ + " (expected 1 — see docs/schema.md)"@,
            InstallError::NonAbsoluteInstallPath { path, install_path } => "install_path "@ + install_path@ + " in "@ + path@ + " is not absolute (after ~ expansion); docs/schema.md requires an absolute path"@,
            InstallError::PathAccess { path, message } => "cannot access "@ + path@ + ": "@ + message@,
            InstallError::NotADirectory { path } => path@ + " is not a directory"@,
            InstallError::CreateInstallsDir { path, message } => "failed to create installs directory "@ + path@ + ": "@ + message@,
            InstallError::TimestampFormat { message } => "internal error formatting timestamp: "@ + message@,
        }
    }

    /// The message shown for the error.
    pub fn message(&self) -> (r: String)
        ensures
            r@ == self.message_view(),
    {
        match self {
            InstallError::Read { path, message } => {
                let mut r = crate::text::owned("failed to read install record ");
                crate::text::push_str(&mut r, path.as_str());
                crate::text::push_str(&mut r, ": ");
                crate::text::push_str(&mut r, message.as_str());
                r
            },
            InstallError::Write { path, message } => {
                let mut r = crate::text::owned("failed to write install record ");
                crate::text::push_str(&mut r, path.as_str());
                crate::text::push_str(&mut r, ": ");
                crate::text::push_str(&mut r, message.as_str());
                r
            },
            InstallError::Parse { path, message } => {
                let mut r = crate::text::owned("failed to parse install record ");
                crate::text::push_str(&mut r, path.as_str());
                crate::text::push_str(&mut r, ": ");
                crate::text::push_str(&mut r, message.as_str());
                r
            },
            InstallError::Serialize { message } => {
                let mut r = crate::text::owned("failed to serialize install record: ");
                crate::text::push_str(&mut r, message.as_str());
                r
            },
            InstallError::UnsupportedSchema { path, version } => {
                let mut r = crate::text::owned("unsupported schema_version ");
                crate::text::push_decimal(&mut r, *version as u64);
                crate::text::push_str(&mut r, " in ");
                crate::text::push_str(&mut r, path.as_str());
                crate::text::push_str(&mut r, " (expected 1 — see docs/schema.md)");
                r
            },
            InstallError::NonAbsoluteInstallPath { path, install_path } => {
                let mut r = crate::text::owned("install_path ");
                crate::text::push_str(&mut r, install_path.as_str());
                crate::text::push_str(&mut r, " in ");
                crate::text::push_str(&mut r, path.as_str());
                crate::text::push_str(&mut r, " is not absolute (after ~ expansion); docs/schema.md requires an absolute path");
                r
            },
            InstallError::PathAccess { path, message } => {
                let mut r = crate::text::owned("cannot access ");
                crate::text::push_str(&mut r, path.as_str());
                crate::text::push_str(&mut r, ": ");
                crate::text::push_str(&mut r, message.as_str());
                r
            },
            InstallError::NotADirectory { path } => {
                let mut r = String::new();
                crate::text::push_str(&mut r, path.as_str());
                crate::text::push_str(&mut r, " is not a directory");
                r
            },
            InstallError::CreateInstallsDir { path, message } => {
                let mut r = crate::text::owned("failed to create installs directory ");
                crate::text::push_str(&mut r, path.as_str());
                crate::text::push_str(&mut r, ": ");
                crate::text::push_str(&mut r, message.as_str());
                r
            },
            InstallError::TimestampFormat { message } => {
                let mut r = crate::text::owned("internal error formatting timestamp: ");
                crate::text::push_str(&mut r, message.as_str());
                r
            },
        }
    }
}

} // verus!
