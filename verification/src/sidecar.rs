//! Supervising the emulator and its sidecars: every sidecar is started
//! before the emulator; when one fails to start, those already started are
//! stopped and the emulator never runs; after the emulator exits, the
//! sidecars are stopped in reverse start order, each with SIGTERM, a grace
//! period, then SIGKILL. Spawning, waiting and signalling are the
//! program's work; the decisions are here.

use vstd::prelude::*;
use crate::text::{owned, push_debug_quoted, push_str, debug_quoted};

verus! {

#[derive(Debug)]
pub enum SidecarError {
    SpawnFailed { name: String, message: String },
    PrimarySpawnFailed { message: String },
    WaitFailed { message: String },
}

impl SidecarError {
    /// The message shown for the error.
    pub fn message(&self) -> (r: String)
        ensures
            r@ == match self {
                SidecarError::SpawnFailed { name, message } => "failed to spawn sidecar "@ + debug_quoted(name@)
                    + ": "@ + message@,
                SidecarError::PrimarySpawnFailed { message } => "failed to spawn primary emulator: "@ + message@,
                SidecarError::WaitFailed { message } => "failed to wait on primary emulator: "@ + message@,
            },
    {
        match self {
            SidecarError::SpawnFailed { name, message } => {
                let mut r = owned("failed to spawn sidecar ");
                push_debug_quoted(&mut r, name.as_str());
                push_str(&mut r, ": ");
                push_str(&mut r, message.as_str());
                r
            },
            SidecarError::PrimarySpawnFailed { message } => {
                let mut r = owned("failed to spawn primary emulator: ");
                push_str(&mut r, message.as_str());
                r
            },
            SidecarError::WaitFailed { message } => {
                let mut r = owned("failed to wait on primary emulator: ");
                push_str(&mut r, message.as_str());
                r
            },
        }
    }
}

/// Where a line of the emulator's output came from.
#[derive(Debug, Clone, Copy, PartialEq, Eq, Structural)]
pub enum OutputSource {
    Stdout,
    Stderr,
}

/// The grace period between SIGTERM and SIGKILL, in milliseconds.
pub const GRACE_PERIOD_MS: u64 = 500;

/// The interval between polls of a stopping sidecar, in milliseconds.
pub const POLL_INTERVAL_MS: u64 = 20;

/// The order in which `started` sidecars are stopped: after the emulator
/// ran, the reverse of their start order; when a later sidecar failed to
/// start, their start order.
pub fn teardown_order(started: usize, after_primary: bool) -> (r: Vec<usize>)
    ensures
        r@.len() == started,
        forall|i: int| 0 <= i < started ==> #[trigger] r@[i] == if after_primary { started - 1 - i } else { i },
{
    let mut r: Vec<usize> = Vec::new();
    let mut i: usize = 0;
    while i < started
        invariant
            i <= started,
            r@.len() == i,
            forall|k: int| 0 <= k < i ==> #[trigger] r@[k] == if after_primary { started - 1 - k } else { k },
        decreases started - i,
    {
        if after_primary {
            r.push(started - 1 - i);
        } else {
            r.push(i);
        }
        i = i + 1;
    }
    r
}

/// What a poll of a stopping sidecar found.
#[derive(Debug, Clone, Copy, PartialEq, Eq, Structural)]
pub enum ChildPoll {
    Exited,
    Running,
    WaitError,
}

/// What to do next while stopping a sidecar.
#[derive(Debug, Clone, Copy, PartialEq, Eq, Structural)]
pub enum ShutdownStep {
    /// It is gone (or cannot be waited on): stop here.
    Done,
    /// Poll again after the poll interval.
    WaitMore,
    /// The grace period is over: SIGKILL it and reap it.
    Kill,
}

/// One step of stopping a sidecar after SIGTERM, `elapsed_ms` after the
/// signal was sent.
pub fn shutdown_step(poll: ChildPoll, elapsed_ms: u64) -> (r: ShutdownStep)
    ensures
        r == match poll {
            ChildPoll::Exited => ShutdownStep::Done,
            ChildPoll::WaitError => ShutdownStep::Done,
            ChildPoll::Running => if elapsed_ms >= GRACE_PERIOD_MS {
                ShutdownStep::Kill
            } else {
                ShutdownStep::WaitMore
            },
        },
{
    match poll {
        ChildPoll::Exited => ShutdownStep::Done,
        ChildPoll::WaitError => ShutdownStep::Done,
        ChildPoll::Running => {
            if elapsed_ms >= GRACE_PERIOD_MS {
                ShutdownStep::Kill
            } else {
                ShutdownStep::WaitMore
            }
        },
    }
}

} // verus!
