//! Monitor decisions: whether the daemon is responsive, how long `stop`
//! waits for the process to die, and the file watcher's debounce step.
//!
//! The threads, signals and socket calls around these decisions live with
//! the caller; every decision here is a function of the observations it is
//! handed.

use vstd::prelude::*;

verus! {

use crate::ipc::Response;

/// How long `stop` waits for the daemon process to die, in milliseconds.
pub const STOP_TIMEOUT_MS: u64 = 5000;

/// How long `stop` sleeps between liveliness polls, in milliseconds.
pub const STOP_POLL_INTERVAL_MS: u64 = 100;

/// Whether the monitor counts as running: a live daemon process that also
/// answered the ping with `Pong`.  A live process with an unresponsive
/// control loop is not running.
pub fn status(daemon_alive: bool, ping_reply: &Option<Response>) -> (r: bool)
    ensures
        r <==> ((ping_reply matches Some(p) && p@ is Pong) && daemon_alive),
{
    if !daemon_alive {
        return false;
    }
    match ping_reply {
        Some(Response::Pong) => true,
        _ => false,
    }
}

/// What one `stop` poll decides.
#[derive(Debug, Clone, Copy, PartialEq, Eq, Structural)]
pub enum StopVerdict {
    /// The process is gone; `stop` is done.
    Stopped,
    /// Still alive and within the timeout: sleep one interval and poll
    /// again.
    Wait,
    /// Still alive after the timeout: report non-termination, do not retry.
    TimedOut,
}

/// Decides one iteration of the `stop` wait loop from the time already
/// waited and whether the process is still alive.
pub fn stop_poll(waited_ms: u64, still_running: bool) -> (r: StopVerdict)
    ensures
        !still_running ==> r == StopVerdict::Stopped,
        still_running && waited_ms < STOP_TIMEOUT_MS ==> r == StopVerdict::Wait,
        still_running && waited_ms >= STOP_TIMEOUT_MS ==> r == StopVerdict::TimedOut,
{
    if !still_running {
        StopVerdict::Stopped
    } else if waited_ms < STOP_TIMEOUT_MS {
        StopVerdict::Wait
    } else {
        StopVerdict::TimedOut
    }
}

/// A filesystem notification kind, as the watcher classifies it.
#[derive(Debug, Clone, Copy, PartialEq, Eq, Structural)]
pub enum FsEventKind {
    Create,
    Modify,
    Remove,
    /// Anything else (access, metadata-only, and the like).
    Other,
}

/// True for the kinds that mean the source tree changed.
pub open spec fn spec_relevant(k: FsEventKind) -> bool {
    k == FsEventKind::Create || k == FsEventKind::Modify || k == FsEventKind::Remove
}

/// What the watcher observes in one iteration.
#[derive(Debug, Clone, Copy, PartialEq, Eq, Structural)]
pub enum WatchEvent {
    /// A filesystem notification arrived.
    Fs(FsEventKind),
    /// The debounce window elapsed with no notification.
    Quiet,
    /// The notification channel closed.
    Disconnected,
    /// The one-shot stop signal arrived.
    StopRequested,
}

/// What the watcher does after one iteration.
#[derive(Debug, Clone, Copy, PartialEq, Eq, Structural)]
pub enum WatcherEffect {
    /// Keep watching.
    Nothing,
    /// A burst of changes settled: note it.
    NoteSettled,
    /// Leave the watch loop.
    Exit,
}

/// The watcher's debounce state.
#[derive(Debug, Clone, Copy, PartialEq, Eq, Structural)]
pub struct WatcherState {
    /// A relevant change arrived and has not settled yet.
    pub pending: bool,
}

/// One step of the watcher: relevant notifications mark a pending change; a
/// quiet debounce window with a pending change settles it; the stop signal
/// and a closed channel end the watch.
pub fn watcher_step(st: WatcherState, ev: WatchEvent) -> (r: (WatcherState, WatcherEffect))
    ensures
        ev == WatchEvent::StopRequested ==> r == (st, WatcherEffect::Exit),
        ev == WatchEvent::Disconnected ==> r == (st, WatcherEffect::Exit),
        ev matches WatchEvent::Fs(k) && spec_relevant(k) ==> r == (
            WatcherState { pending: true },
            WatcherEffect::Nothing,
        ),
        ev matches WatchEvent::Fs(k) && !spec_relevant(k) ==> r == (st, WatcherEffect::Nothing),
        ev == WatchEvent::Quiet && st.pending ==> r == (
            WatcherState { pending: false },
            WatcherEffect::NoteSettled,
        ),
        ev == WatchEvent::Quiet && !st.pending ==> r == (st, WatcherEffect::Nothing),
{
    match ev {
        WatchEvent::StopRequested => (st, WatcherEffect::Exit),
        WatchEvent::Disconnected => (st, WatcherEffect::Exit),
        WatchEvent::Fs(k) => match k {
            FsEventKind::Other => (st, WatcherEffect::Nothing),
            _ => (WatcherState { pending: true }, WatcherEffect::Nothing),
        },
        WatchEvent::Quiet => {
            if st.pending {
                (WatcherState { pending: false }, WatcherEffect::NoteSettled)
            } else {
                (st, WatcherEffect::Nothing)
            }
        },
    }
}

} // verus!
