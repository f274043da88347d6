//! The lifecycle of the bridge that owns the worker: not started, running,
//! stopped (terminal).

use vstd::prelude::*;
use vstd::pervasive::unreached;

verus! {

/// The bridge's lifecycle state.
#[derive(Debug, Clone, Copy, PartialEq, Eq, Structural)]
pub enum LifeState {
    /// The bridge exists; the worker was not spawned yet and the command
    /// receiver is still held.
    NotStarted,
    /// The worker was spawned; the command receiver was taken exactly once.
    Running,
    /// The worker exited; the receiver is gone for good. Terminal.
    Stopped,
}

impl LifeState {
    /// A fresh bridge has not started its worker.
    pub fn new() -> (r: LifeState)
        ensures
            r == LifeState::NotStarted,
    {
        LifeState::NotStarted
    }

    /// The start transition: spawn the worker on the first start (the flag
    /// in the returned pair says so), and do nothing on a repeated start.
    /// Starting a stopped bridge is a precondition violation — the command
    /// receiver was already consumed, and failing fast here is what keeps a
    /// restart from silently producing a non-functional channel.
    pub fn on_start(self) -> (r: (LifeState, bool))
        requires
            self != LifeState::Stopped,
        ensures
            self == LifeState::NotStarted ==> r == (LifeState::Running, true),
            self == LifeState::Running ==> r == (LifeState::Running, false),
    {
        match self {
            LifeState::NotStarted => (LifeState::Running, true),
            LifeState::Running => (LifeState::Running, false),
            LifeState::Stopped => unreached(),
        }
    }

    /// The shutdown transition: from any state the bridge ends stopped.
    pub fn on_shutdown(self) -> (r: LifeState)
        ensures
            r == LifeState::Stopped,
    {
        LifeState::Stopped
    }

    /// Whether the worker is running.
    pub fn is_running(self) -> (r: bool)
        ensures
            r == (self == LifeState::Running),
    {
        match self {
            LifeState::Running => true,
            _ => false,
        }
    }
}

} // verus!
