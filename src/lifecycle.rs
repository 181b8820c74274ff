//! The decisions of the listener: what to do with the outcome of each
//! accept, and what a request to stop does to the shared running flag.

use vstd::prelude::*;

verus! {

/// What one accept on the listening socket gave.
#[derive(PartialEq, Eq, Structural, Clone, Copy, Debug)]
pub enum AcceptResult {
    /// A new connection.
    Connected,
    /// No connection is pending on the non-blocking socket.
    NothingPending,
    /// A failure of that one attempt (the peer gave up, a signal came, no
    /// descriptor was free): the socket itself is still usable.
    Transient,
    /// The listening socket itself is gone or unusable.
    Fatal,
}

/// Why the accept loop ended.
#[derive(PartialEq, Eq, Structural, Clone, Copy, Debug)]
pub enum ListenerExit {
    ShutdownRequested,
    SocketError,
}

/// What the accept loop does next.
#[derive(PartialEq, Eq, Structural, Clone, Copy, Debug)]
pub enum ListenerAction {
    /// Hand the connection to a new concurrent handler and register it.
    Spawn,
    /// Wait one poll interval, then accept again.
    Pause,
    Exit(ListenerExit),
}

pub open spec fn accept_action(running: bool, result: AcceptResult) -> ListenerAction {
    if !running {
        ListenerAction::Exit(ListenerExit::ShutdownRequested)
    } else {
        match result {
            AcceptResult::Connected => ListenerAction::Spawn,
            AcceptResult::NothingPending => ListenerAction::Pause,
            AcceptResult::Transient => ListenerAction::Pause,
            AcceptResult::Fatal => ListenerAction::Exit(ListenerExit::SocketError),
        }
    }
}

/// Decides on the outcome of one accept, given the running flag as read
/// after it. Once the flag is down no connection is admitted, not even
/// one that the accept had already taken.
pub fn accept_step(running: bool, result: AcceptResult) -> (r: ListenerAction)
    ensures
        r == accept_action(running, result),
        !running ==> r == ListenerAction::Exit(ListenerExit::ShutdownRequested),
{
    if !running {
        return ListenerAction::Exit(ListenerExit::ShutdownRequested);
    }
    match result {
        AcceptResult::Connected => ListenerAction::Spawn,
        AcceptResult::NothingPending => ListenerAction::Pause,
        AcceptResult::Transient => ListenerAction::Pause,
        AcceptResult::Fatal => ListenerAction::Exit(ListenerExit::SocketError),
    }
}

/// What a request to stop reports.
#[derive(PartialEq, Eq, Structural, Clone, Copy, Debug)]
pub enum StopReport {
    /// The flag was up and has been lowered.
    Signalled,
    /// The flag was already down: nothing was done.
    AlreadyStopped,
}

/// The flag after a stop, and its report, given the flag before.
pub open spec fn stop_outcome(was_running: bool) -> (bool, StopReport) {
    if was_running {
        (false, StopReport::Signalled)
    } else {
        (false, StopReport::AlreadyStopped)
    }
}

/// A stop: lowers the running flag and says whether it was up.
pub fn stop_step(was_running: bool) -> (r: (bool, StopReport))
    ensures
        r == stop_outcome(was_running),
{
    if was_running {
        (false, StopReport::Signalled)
    } else {
        (false, StopReport::AlreadyStopped)
    }
}

/// Stopping twice is harmless: the second stop finds the flag down, leaves
/// it down and reports that nothing was left to do.
pub proof fn lemma_stop_twice(was_running: bool)
    ensures
        stop_outcome(stop_outcome(was_running).0) == (false, StopReport::AlreadyStopped),
        stop_outcome(was_running).0 == false,
{
}

/// Once the running flag is down the accept loop admits no connection,
/// whatever the accept gave.
pub proof fn lemma_no_admission_after_stop(result: AcceptResult)
    ensures
        accept_action(stop_outcome(true).0, result) == ListenerAction::Exit(
            ListenerExit::ShutdownRequested,
        ),
        accept_action(false, result) != ListenerAction::Spawn,
{
}

} // verus!
