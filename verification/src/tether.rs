//! The decisions of `step tether`: a command runs in its own process group
//! for as long as the workspace directory exists. The caller spawns the
//! command, performs each action and reports what it saw next; this module
//! decides what happens then.
use vstd::prelude::*;

verus! {

/// How long the command's process group gets between SIGTERM and SIGKILL.
pub const GRACE_MS: u64 = 5000;

/// The pause between two looks while the workspace is there.
pub const WATCH_PAUSE_MS: u64 = 1000;

/// The pause between two looks while waiting for the group to end.
pub const WAIT_PAUSE_MS: u64 = 200;

/// Where a tethered run stands.
#[derive(Debug, Clone, Copy, PartialEq, Eq, Structural)]
pub enum TetherState {
    /// The command runs and the workspace directory was there.
    Watching,
    /// The workspace is gone and SIGTERM was sent; SIGKILL follows once the
    /// clock reaches `deadline_ms`.
    Terminating { deadline_ms: u64 },
    /// SIGKILL was sent; waiting for the command to end.
    Killed,
    /// The command ended with this exit code.
    Done { code: i32 },
}

/// What the caller saw after its last action.
#[derive(Debug, Clone, Copy, PartialEq, Eq, Structural)]
pub enum TetherEvent {
    /// The command ended; `code` is its exit code, `None` when a signal
    /// ended it.
    Exited { code: Option<i32> },
    /// The command still runs; `now_ms` is the clock in milliseconds and
    /// `path_exists` whether the workspace directory is there.
    Running { now_ms: u64, path_exists: bool },
}

/// What the caller does next.
#[derive(Debug, Clone, Copy, PartialEq, Eq, Structural)]
pub enum TetherAction {
    /// Stop and report this exit code.
    Finish(i32),
    /// Send SIGTERM to the process group, then look again at once.
    SignalTerm,
    /// Send SIGKILL to the process group, then look again at once.
    SignalKill,
    /// Sleep this many milliseconds, then look again.
    Sleep(u64),
}

/// The state a tethered run starts in.
pub open spec fn tether_start() -> TetherState {
    TetherState::Watching
}

/// The exit code reported for an ended command: its own code, or -1 when
/// a signal ended it.
pub open spec fn exit_code(code: Option<i32>) -> i32 {
    match code {
        Some(c) => c,
        None => -1i32,
    }
}

/// The clock reading `GRACE_MS` after `now`, held at the clock's limit.
pub open spec fn grace_deadline(now: u64) -> u64 {
    if now + GRACE_MS <= u64::MAX {
        (now + GRACE_MS) as u64
    } else {
        u64::MAX
    }
}

/// One decision: an ended command finishes the run with its code and no
/// signal; while the workspace is there the run keeps watching; once it is
/// gone SIGTERM goes out with a deadline `GRACE_MS` ahead; when the
/// deadline passes without an exit SIGKILL goes out; after that the run
/// waits for the end.
pub open spec fn tether_next(s: TetherState, ev: TetherEvent) -> (TetherState, TetherAction) {
    match s {
        TetherState::Done { code } => (s, TetherAction::Finish(code)),
        _ => match ev {
            TetherEvent::Exited { code } => (
                TetherState::Done { code: exit_code(code) },
                TetherAction::Finish(exit_code(code)),
            ),
            TetherEvent::Running { now_ms, path_exists } => match s {
                TetherState::Watching => if path_exists {
                    (TetherState::Watching, TetherAction::Sleep(WATCH_PAUSE_MS))
                } else {
                    (
                        TetherState::Terminating { deadline_ms: grace_deadline(now_ms) },
                        TetherAction::SignalTerm,
                    )
                },
                TetherState::Terminating { deadline_ms } => if now_ms < deadline_ms {
                    (s, TetherAction::Sleep(WAIT_PAUSE_MS))
                } else {
                    (TetherState::Killed, TetherAction::SignalKill)
                },
                _ => (s, TetherAction::Sleep(WAIT_PAUSE_MS)),
            },
        },
    }
}

/// The state a tethered run starts in.
pub fn tether_initial() -> (r: TetherState)
    ensures
        r == tether_start(),
{
    TetherState::Watching
}

/// Decide the next state and action of a tethered run.
pub fn tether_step(s: TetherState, ev: TetherEvent) -> (r: (TetherState, TetherAction))
    ensures
        r == tether_next(s, ev),
{
    match s {
        TetherState::Done { code } => (s, TetherAction::Finish(code)),
        _ => match ev {
            TetherEvent::Exited { code } => {
                let c: i32 = match code {
                    Some(c) => c,
                    None => -1,
                };
                (TetherState::Done { code: c }, TetherAction::Finish(c))
            },
            TetherEvent::Running { now_ms, path_exists } => match s {
                TetherState::Watching => {
                    if path_exists {
                        (TetherState::Watching, TetherAction::Sleep(WATCH_PAUSE_MS))
                    } else {
                        let d: u64 = now_ms.saturating_add(GRACE_MS);
                        (TetherState::Terminating { deadline_ms: d }, TetherAction::SignalTerm)
                    }
                },
                TetherState::Terminating { deadline_ms } => {
                    if now_ms < deadline_ms {
                        (s, TetherAction::Sleep(WAIT_PAUSE_MS))
                    } else {
                        (TetherState::Killed, TetherAction::SignalKill)
                    }
                },
                _ => (s, TetherAction::Sleep(WAIT_PAUSE_MS)),
            },
        },
    }
}

/// What the tether promises: a command that ends on its own is reported
/// with its exit code and no signal is sent; no signal goes out while the
/// workspace is there; when it disappears SIGTERM goes out with a deadline
/// `GRACE_MS` ahead; SIGKILL goes out only once that deadline has passed;
/// and once finished, the run stays finished.
pub proof fn law_tether(s: TetherState, ev: TetherEvent)
    ensures
        !(s is Done) && ev is Exited ==> tether_next(s, ev) == (
            TetherState::Done { code: exit_code(ev->code) },
            TetherAction::Finish(exit_code(ev->code)),
        ),
        s is Watching && ev is Running && ev->path_exists ==> tether_next(s, ev) == (
            TetherState::Watching,
            TetherAction::Sleep(WATCH_PAUSE_MS),
        ),
        s is Watching && ev is Running && !ev->path_exists ==> tether_next(s, ev) == (
            TetherState::Terminating { deadline_ms: grace_deadline(ev->now_ms) },
            TetherAction::SignalTerm,
        ),
        ev is Running && ev->now_ms + GRACE_MS <= u64::MAX ==> grace_deadline(ev->now_ms) == ev->now_ms + GRACE_MS,
        tether_next(s, ev).1 == TetherAction::SignalKill ==> (s is Terminating && ev is Running && ev->now_ms
            >= s->deadline_ms),
        tether_next(s, ev).1 == TetherAction::SignalTerm ==> (s is Watching && ev is Running && !ev->path_exists),
        s is Done ==> tether_next(s, ev) == (s, TetherAction::Finish(s->Done_code)),
{
}

} // verus!
