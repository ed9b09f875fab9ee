//! Fetching taps with git: what each git invocation's outcome means.
//! Running git (with its timeout) is the program's work; it hands over
//! exit status and output, and these functions decide the result.

use vstd::prelude::*;
use crate::text::{
    chars_of, debug_quoted, owned, push_debug_quoted, push_decimal, push_str, decimal, string_from, trim,
    trim_exec, views, words, words_exec,
};

verus! {

/// How long a clone may take, in seconds.
pub const CLONE_TIMEOUT_SECS: u64 = 300;

#[derive(Debug)]
pub enum FetchError {
    GitNotFound,
    CloneFailed { url: String, stderr: String },
    CloneTimeout { url: String, seconds: u64 },
    PullFailed { path: String, stderr: String },
    Io(String),
}

impl FetchError {
    /// The message shown for the error.
    pub fn message(&self) -> (r: String)
        ensures
            r@ == match self {
                FetchError::GitNotFound => "git is not available on PATH \u{2014} install it with: apt install git"@,
                FetchError::CloneFailed { url, stderr } => "git clone failed for "@ + debug_quoted(url@) + ":\n"@
                    + stderr@,
                FetchError::CloneTimeout { url, seconds } => "git clone for "@ + debug_quoted(url@)
                    + " timed out after "@ + decimal(*seconds as nat) + "s"@,
                FetchError::PullFailed { path, stderr } => "git pull failed at "@ + debug_quoted(path@) + ":\n"@
                    + stderr@,
                FetchError::Io(m) => m@,
            },
    {
        match self {
            FetchError::GitNotFound => owned("git is not available on PATH \u{2014} install it with: apt install git"),
            FetchError::CloneFailed { url, stderr } => {
                let mut r = owned("git clone failed for ");
                push_debug_quoted(&mut r, url.as_str());
                push_str(&mut r, ":\n");
                push_str(&mut r, stderr.as_str());
                r
            },
            FetchError::CloneTimeout { url, seconds } => {
                let mut r = owned("git clone for ");
                push_debug_quoted(&mut r, url.as_str());
                push_str(&mut r, " timed out after ");
                push_decimal(&mut r, *seconds);
                push_str(&mut r, "s");
                r
            },
            FetchError::PullFailed { path, stderr } => {
                let mut r = owned("git pull failed at ");
                push_debug_quoted(&mut r, path.as_str());
                push_str(&mut r, ":\n");
                push_str(&mut r, stderr.as_str());
                r
            },
            FetchError::Io(m) => m.clone(),
        }
    }
}

/// How a git run ended: it exited (successfully or not) with its output,
/// or could not be started.
pub struct GitOutput {
    pub success: bool,
    pub stdout: String,
    pub stderr: String,
}

fn trimmed(s: &str) -> (r: String)
    ensures
        r@ == trim(s@),
{
    let t = trim_exec(chars_of(s).as_slice());
    string_from(t.as_slice())
}

/// `git --version`: its trimmed output, or `GitNotFound` when git could
/// not be run or failed.
pub fn check_git(out: Option<GitOutput>) -> (r: Result<String, FetchError>)
    ensures
        match out {
            Some(o) => if o.success {
                r matches Ok(v) && v@ == trim(o.stdout@)
            } else {
                r matches Err(FetchError::GitNotFound)
            },
            None => r matches Err(FetchError::GitNotFound),
        },
{
    match out {
        Some(o) => {
            if o.success {
                Ok(trimmed(o.stdout.as_str()))
            } else {
                Err(FetchError::GitNotFound)
            }
        },
        None => Err(FetchError::GitNotFound),
    }
}

/// How a clone ended.
pub enum CloneOutcome {
    Exited { success: bool, stderr: String },
    TimedOut,
}

/// The result of `git clone --depth=1 <source> <dest>`. On an error the
/// caller removes what the clone left at the destination.
pub fn clone_tap(source: &str, outcome: CloneOutcome) -> (r: Result<(), FetchError>)
    ensures
        match outcome {
            CloneOutcome::Exited { success, stderr } => if success {
                r is Ok
            } else {
                r matches Err(FetchError::CloneFailed { url, stderr: e }) && url@ == source@ && e@ == stderr@
            },
            CloneOutcome::TimedOut => r matches Err(FetchError::CloneTimeout { url, seconds }) && url@ == source@
                && seconds == CLONE_TIMEOUT_SECS,
        },
{
    match outcome {
        CloneOutcome::Exited { success, stderr } => {
            if success {
                Ok(())
            } else {
                Err(FetchError::CloneFailed { url: owned(source), stderr })
            }
        },
        CloneOutcome::TimedOut => Err(FetchError::CloneTimeout { url: owned(source), seconds: CLONE_TIMEOUT_SECS }),
    }
}

pub struct PullResult {
    pub before_hash: String,
    pub after_hash: String,
    pub already_up_to_date: bool,
}

/// The hash `git rev-parse HEAD` printed, trimmed.
pub fn local_head(rev_parse_stdout: &str) -> (r: String)
    ensures
        r@ == trim(rev_parse_stdout@),
{
    trimmed(rev_parse_stdout)
}

/// The result of `git pull --ff-only` in `tap_dir`: `before` is the head
/// before the pull; `pull` is the head after it, or the pull's error
/// output when it failed.
pub fn pull_tap(tap_dir: &str, before: String, pull: Result<String, String>) -> (r: Result<PullResult, FetchError>)
    ensures
        match pull {
            Ok(after) => r matches Ok(p) && p.before_hash == before && p.after_hash == after
                && p.already_up_to_date == (before@ == after@),
            Err(stderr) => r matches Err(FetchError::PullFailed { path, stderr: e }) && path@ == tap_dir@
                && e@ == stderr@,
        },
{
    match pull {
        Ok(after) => {
            let same = crate::text::str_eq(before.as_str(), after.as_str());
            Ok(PullResult { before_hash: before, after_hash: after, already_up_to_date: same })
        },
        Err(stderr) => Err(FetchError::PullFailed { path: owned(tap_dir), stderr }),
    }
}

/// The date of the last commit (`git log -1 --format=%cs`): its trimmed
/// output when git succeeded and printed something.
pub fn last_commit_date(out: Option<GitOutput>) -> (r: Option<String>)
    ensures
        match out {
            Some(o) => if o.success && trim(o.stdout@).len() > 0 {
                r matches Some(d) && d@ == trim(o.stdout@)
            } else {
                r is None
            },
            None => r is None,
        },
{
    match out {
        Some(o) => {
            if !o.success {
                return None;
            }
            let t = trimmed(o.stdout.as_str());
            if t.as_str().is_empty() {
                None
            } else {
                Some(t)
            }
        },
        None => None,
    }
}

/// The remote head (`git ls-remote <source> HEAD`): the first word of its
/// output. A failed run, or output without a word, is `PullFailed` for
/// the source; a run that could not start is `Io`.
pub fn remote_head(source: &str, out: Result<GitOutput, String>) -> (r: Result<String, FetchError>)
    ensures
        match out {
            Err(m) => r matches Err(FetchError::Io(e)) && e@ == m@,
            Ok(o) => if !o.success {
                r matches Err(FetchError::PullFailed { path, stderr }) && path@ == source@ && stderr@ == o.stderr@
            } else if words(o.stdout@).len() > 0 {
                r matches Ok(h) && h@ == words(o.stdout@)[0]
            } else {
                r matches Err(FetchError::PullFailed { path, stderr }) && path@ == source@
                    && stderr@ == "git ls-remote returned no HEAD ref"@
            },
        },
{
    match out {
        Err(m) => Err(FetchError::Io(m)),
        Ok(o) => {
            if !o.success {
                return Err(FetchError::PullFailed { path: owned(source), stderr: o.stderr });
            }
            let w = words_exec(chars_of(o.stdout.as_str()).as_slice(), false);
            if w.len() > 0 {
                assert(views(w@)[0] == w@[0]@);
                Ok(string_from(w[0].as_slice()))
            } else {
                Err(FetchError::PullFailed { path: owned(source), stderr: owned("git ls-remote returned no HEAD ref") })
            }
        },
    }
}

} // verus!
