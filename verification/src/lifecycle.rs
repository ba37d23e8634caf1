//! The server's lifecycle and the accept loop's decisions.
//!
//! The lifecycle moves one way: created, then running, then stopped, with no
//! restart. The running state is the one flag shared between the accept loop
//! and every connection task; everything those loops decide from it is pure
//! and stands here, while the sockets, threads and the atomic cell that
//! carries the flag across tasks live with the caller.

use vstd::prelude::*;

verus! {

/// How long the accept loop sleeps before polling again when no connection
/// was pending.
pub const ACCEPT_RETRY_MILLIS: u64 = 50;

/// Where the server stands in its one-way lifecycle.
#[derive(Clone, Copy, Debug, PartialEq, Eq, Structural)]
pub enum ServerPhase {
    /// Bound, not yet asked to run.
    Created,
    /// The accept loop is live.
    Running,
    /// Shutdown was requested; terminal.
    Stopped,
}

/// The control state the lifecycle calls act on.
#[derive(Clone, Copy, Debug, PartialEq, Eq, Structural)]
pub struct ServerControl {
    pub phase: ServerPhase,
}

/// Whether the shared running flag reads true in this state.
pub open spec fn is_running(c: ServerControl) -> bool {
    c.phase is Running
}

/// The state a stop request leaves behind: a running server stops, any other
/// state is untouched.
pub open spec fn after_stop(c: ServerControl) -> ServerControl {
    if c.phase is Running {
        ServerControl { phase: ServerPhase::Stopped }
    } else {
        c
    }
}

impl ServerControl {
    /// A freshly constructed server: bound, running flag false.
    pub fn new() -> (c: Self)
        ensures
            c.phase is Created,
            !is_running(c),
    {
        ServerControl { phase: ServerPhase::Created }
    }

    /// Entering the accept loop: sets the running flag.
    pub fn start(&mut self)
        requires
            old(self).phase is Created,
        ensures
            final(self).phase is Running,
            is_running(*final(self)),
    {
        self.phase = ServerPhase::Running;
    }

    /// Requests shutdown: clears the running flag if it was set and reports
    /// whether it was — true asks the caller to log the shutdown signal,
    /// false to warn that the server was not running.
    pub fn request_stop(&mut self) -> (was_running: bool)
        ensures
            was_running == is_running(*old(self)),
            *final(self) == after_stop(*old(self)),
            !is_running(*final(self)),
    {
        if matches!(self.phase, ServerPhase::Running) {
            self.phase = ServerPhase::Stopped;
            true
        } else {
            false
        }
    }
}

/// What one polling iteration of the accept loop observed.
pub enum AcceptEvent {
    /// A new connection was accepted.
    Connection,
    /// No connection was pending; not an error.
    WouldBlock,
    /// Any other accept error; non-fatal for the listener.
    Failed,
}

/// What the accept loop does next.
#[derive(Clone, Copy, Debug, PartialEq, Eq, Structural)]
pub enum AcceptAction {
    /// Spawn one independent handler task owning the new connection.
    Spawn,
    /// Sleep briefly, then poll again.
    Sleep,
    /// Log the error and keep the loop going.
    LogAndContinue,
    /// Leave the loop: the running flag is clear.
    Exit,
}

/// The accept loop's decision for one iteration: exit as soon as the running
/// flag is clear; otherwise spawn a handler per accepted connection, sleep on
/// would-block, and treat any other accept error as non-fatal.
pub open spec fn accept_decision(running: bool, ev: AcceptEvent) -> AcceptAction {
    if !running {
        AcceptAction::Exit
    } else {
        match ev {
            AcceptEvent::Connection => AcceptAction::Spawn,
            AcceptEvent::WouldBlock => AcceptAction::Sleep,
            AcceptEvent::Failed => AcceptAction::LogAndContinue,
        }
    }
}

/// Decides one iteration of the accept loop from the running flag and what
/// the poll observed.
pub fn accept_step(running: bool, ev: &AcceptEvent) -> (a: AcceptAction)
    ensures
        a == accept_decision(running, *ev),
{
    if !running {
        return AcceptAction::Exit;
    }
    match ev {
        AcceptEvent::Connection => AcceptAction::Spawn,
        AcceptEvent::WouldBlock => AcceptAction::Sleep,
        AcceptEvent::Failed => AcceptAction::LogAndContinue,
    }
}

/// Law: a stop request on a running server clears the running flag, and an
/// accept loop that reads a cleared flag exits on its next iteration —
/// whatever the poll observes, it never accepts another connection. Handler
/// tasks already spawned are untouched by the request itself: they observe
/// the same flag at their own loop boundaries.
pub proof fn lemma_stop_halts_accept(c: ServerControl, ev: AcceptEvent)
    requires
        is_running(c),
    ensures
        !is_running(after_stop(c)),
        accept_decision(is_running(after_stop(c)), ev) == AcceptAction::Exit,
        accept_decision(is_running(after_stop(c)), ev) != AcceptAction::Spawn,
{
}

} // verus!
