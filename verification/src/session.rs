//! The watch loop: what the program does next, given what it saw of the game.
//! The program looks for the game (or checks on the game it launched), tunes
//! and tracks a session while the game runs, and exits or waits per its options.

use vstd::prelude::*;
use crate::process::GameProcess;

verus! {

/// What the watch loop knows between two looks at the process table.
#[derive(Debug, Clone, Copy, PartialEq, Eq, Structural)]
pub struct WatchState {
    /// Serve one session, then exit (`--once`).
    pub once: bool,
    /// A session has begun at some point.
    pub has_started: bool,
    /// The program launched the game itself (`--run-game`).
    pub spawned: bool,
}

/// What one look at the system showed.
#[derive(Debug, Clone)]
pub enum WatchEvent {
    /// The game was found running.
    Found(GameProcess),
    /// The game is not running.
    NotFound,
    /// The process table could not be read.
    ScanFailed,
    /// The launched game still runs.
    SpawnedAlive(GameProcess),
    /// The launched game has exited.
    SpawnedExited,
    /// A tracked session ended: the game closed and the session was undone.
    SessionEnded,
}

/// What to do next.
#[derive(Debug, Clone)]
pub enum WatchAction {
    /// Tune the session for this process and track it until it exits.
    Track(GameProcess),
    /// Wait this many seconds, then look again.
    Sleep(u64),
    /// Look again at once.
    Poll,
    /// Stop the program.
    Exit,
}

/// Seconds to wait after the process table could not be read.
pub open spec fn scan_retry_seconds() -> u64 {
    5
}

/// Seconds to wait when the game is not running.
pub open spec fn absent_retry_seconds() -> u64 {
    2
}

/// The state with a session marked as begun.
pub open spec fn started(s: WatchState) -> WatchState {
    WatchState { once: s.once, has_started: true, spawned: s.spawned }
}

/// One step of the watch loop. A process that runs is tracked and marks a
/// session as begun. When the launched game exits, the program exits. After one
/// session under `--once`, a failed scan or an absent game ends the program;
/// otherwise it retries after 5 s or 2 s. When a session ends, the program exits
/// under `--once` or when it launched the game, and looks again otherwise.
pub open spec fn spec_watch_step(s: WatchState, e: WatchEvent) -> (WatchState, WatchAction) {
    match e {
        WatchEvent::Found(p) => (started(s), WatchAction::Track(p)),
        WatchEvent::SpawnedAlive(p) => (started(s), WatchAction::Track(p)),
        WatchEvent::SpawnedExited => (s, WatchAction::Exit),
        WatchEvent::ScanFailed => (
            s,
            if s.once && s.has_started {
                WatchAction::Exit
            } else {
                WatchAction::Sleep(scan_retry_seconds())
            },
        ),
        WatchEvent::NotFound => (
            s,
            if s.once && s.has_started {
                WatchAction::Exit
            } else {
                WatchAction::Sleep(absent_retry_seconds())
            },
        ),
        WatchEvent::SessionEnded => (
            s,
            if s.once || s.spawned {
                WatchAction::Exit
            } else {
                WatchAction::Poll
            },
        ),
    }
}

/// The state of a watch loop that has not yet seen the game.
pub fn initial_watch_state(once: bool, spawned: bool) -> (s: WatchState)
    ensures
        s == (WatchState { once, has_started: false, spawned }),
{
    WatchState { once, has_started: false, spawned }
}

/// The next state and action of the watch loop in state `s` after event `e`.
pub fn watch_step(s: WatchState, e: WatchEvent) -> (r: (WatchState, WatchAction))
    ensures
        r == spec_watch_step(s, e),
{
    let stop_now = s.once && s.has_started;
    match e {
        WatchEvent::Found(p) => (
            WatchState { once: s.once, has_started: true, spawned: s.spawned },
            WatchAction::Track(p),
        ),
        WatchEvent::SpawnedAlive(p) => (
            WatchState { once: s.once, has_started: true, spawned: s.spawned },
            WatchAction::Track(p),
        ),
        WatchEvent::SpawnedExited => (s, WatchAction::Exit),
        WatchEvent::ScanFailed => (
            s,
            if stop_now {
                WatchAction::Exit
            } else {
                WatchAction::Sleep(5)
            },
        ),
        WatchEvent::NotFound => (
            s,
            if stop_now {
                WatchAction::Exit
            } else {
                WatchAction::Sleep(2)
            },
        ),
        WatchEvent::SessionEnded => (
            s,
            if s.once || s.spawned {
                WatchAction::Exit
            } else {
                WatchAction::Poll
            },
        ),
    }
}

/// Under `--once`, the program stops after its first session: once a session
/// has begun, every event but a running game ends the program.
pub proof fn lemma_once_stops_after_first_session(s: WatchState, e: WatchEvent)
    requires
        s.once,
        s.has_started,
        !(e is Found),
        !(e is SpawnedAlive),
    ensures
        spec_watch_step(s, e).1 is Exit,
{
}

/// A program that neither runs once nor launched the game watches forever: no
/// event ends it.
pub proof fn lemma_plain_watch_never_exits(s: WatchState, e: WatchEvent)
    requires
        !s.once,
        !s.spawned,
        !(e is SpawnedExited),
    ensures
        !(spec_watch_step(s, e).1 is Exit),
{
}

/// The options never change while watching, and a begun session stays begun;
/// a session begins exactly when a running game is tracked.
pub proof fn lemma_watch_state_only_grows(s: WatchState, e: WatchEvent)
    ensures
        spec_watch_step(s, e).0.once == s.once,
        spec_watch_step(s, e).0.spawned == s.spawned,
        s.has_started ==> spec_watch_step(s, e).0.has_started,
        spec_watch_step(s, e).1 is Track <==> (e is Found || e is SpawnedAlive),
{
}

} // verus!
