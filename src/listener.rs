//! The lifecycle of one listener: `Starting`, `Listening`, `Draining`,
//! `Stopped`.

use vstd::prelude::*;

verus! {

/// Where a listener stands in its lifecycle.
#[derive(Clone, Copy, Debug, PartialEq, Eq, Structural)]
pub enum ListenerState {
    /// Before its socket is bound.
    Starting,
    /// Bound, accepting and serving connections.
    Listening,
    /// The shutdown event was observed: no new connections, in-flight
    /// requests run to completion.
    Draining,
    /// Terminated, after a bind failure, a serve failure or a drain.
    Stopped,
}

/// What happens to a listener.
#[derive(Clone, Copy, Debug, PartialEq, Eq, Structural)]
pub enum ListenerEvent {
    /// The socket was bound.
    Bound,
    /// The socket could not be bound.
    BindFailed,
    /// The listener's subscription observed the shutdown event.
    ShutdownObserved,
    /// Serving failed at run time.
    ServeFailed,
    /// Every in-flight request has completed.
    Drained,
}

/// The state that `e` leads to from `s`; an event with no transition from
/// `s` leaves it unchanged.
pub open spec fn transition(s: ListenerState, e: ListenerEvent) -> ListenerState {
    match (s, e) {
        (ListenerState::Starting, ListenerEvent::Bound) => ListenerState::Listening,
        (ListenerState::Starting, ListenerEvent::BindFailed) => ListenerState::Stopped,
        (ListenerState::Listening, ListenerEvent::ShutdownObserved) => ListenerState::Draining,
        (ListenerState::Listening, ListenerEvent::ServeFailed) => ListenerState::Stopped,
        (ListenerState::Draining, ListenerEvent::Drained) => ListenerState::Stopped,
        (ListenerState::Draining, ListenerEvent::ServeFailed) => ListenerState::Stopped,
        _ => s,
    }
}

/// The state reached from `s` after the events `es`, in order.
pub open spec fn run(s: ListenerState, es: Seq<ListenerEvent>) -> ListenerState
    decreases es.len(),
{
    if es.len() == 0 {
        s
    } else {
        transition(run(s, es.drop_last()), es.last())
    }
}

/// Whether a listener in state `s` takes new connections.
pub open spec fn accepting(s: ListenerState) -> bool {
    s == ListenerState::Listening
}

/// The state that `e` leads to from `s`.
pub fn next_state(s: ListenerState, e: ListenerEvent) -> (r: ListenerState)
    ensures
        r == transition(s, e),
{
    match (s, e) {
        (ListenerState::Starting, ListenerEvent::Bound) => ListenerState::Listening,
        (ListenerState::Starting, ListenerEvent::BindFailed) => ListenerState::Stopped,
        (ListenerState::Listening, ListenerEvent::ShutdownObserved) => ListenerState::Draining,
        (ListenerState::Listening, ListenerEvent::ServeFailed) => ListenerState::Stopped,
        (ListenerState::Draining, ListenerEvent::Drained) => ListenerState::Stopped,
        (ListenerState::Draining, ListenerEvent::ServeFailed) => ListenerState::Stopped,
        _ => s,
    }
}

/// Whether a listener in state `s` takes new connections.
pub fn accepts_connections(s: ListenerState) -> (r: bool)
    ensures
        r == accepting(s),
{
    match s {
        ListenerState::Listening => true,
        _ => false,
    }
}

/// Once a listener is draining or stopped, no sequence of events brings it
/// back to accepting connections, and a stopped listener stays stopped.
pub proof fn lemma_no_accept_after_shutdown(s: ListenerState, es: Seq<ListenerEvent>)
    requires
        s == ListenerState::Draining || s == ListenerState::Stopped,
    ensures
        run(s, es) == ListenerState::Draining || run(s, es) == ListenerState::Stopped,
        !accepting(run(s, es)),
        s == ListenerState::Stopped ==> run(s, es) == ListenerState::Stopped,
    decreases es.len(),
{
    if es.len() > 0 {
        lemma_no_accept_after_shutdown(s, es.drop_last());
    }
}

} // verus!
