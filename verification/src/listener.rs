//! The accept loop's decisions, as a state machine: which action each
//! event demands, and that a shutdown signal stops accepting for good.
//! The socket work itself — accepting, serving, draining — is performed
//! outside the library, one action at a time.

use vstd::prelude::*;

verus! {

/// What the accept loop observes: a process-wide shutdown signal, an
/// accepted connection, or a failed accept.
pub enum ListenerEvent {
    ShutdownSignal,
    ConnectionAccepted,
    AcceptFailed,
}

/// What the accept loop must do next: serve the accepted connection,
/// ignore the event, or drain the outstanding connections and stop.
#[derive(PartialEq, Eq, Structural, Clone, Copy, Debug)]
pub enum ListenerAction {
    Serve,
    Ignore,
    DrainAndStop,
}

/// One step of the accept loop: the next accepting state and the action.
/// While accepting, a connection is served and a signal drains and
/// stops; once stopped, every event is ignored.
pub open spec fn listener_step(accepting: bool, ev: ListenerEvent) -> (bool, ListenerAction) {
    if !accepting {
        (false, ListenerAction::Ignore)
    } else {
        match ev {
            ListenerEvent::ShutdownSignal => (false, ListenerAction::DrainAndStop),
            ListenerEvent::ConnectionAccepted => (true, ListenerAction::Serve),
            ListenerEvent::AcceptFailed => (true, ListenerAction::Ignore),
        }
    }
}

/// A listener's accept loop state.
pub struct Listener {
    accepting: bool,
}

impl Listener {
    /// Whether the loop still accepts connections.
    pub closed spec fn spec_accepting(&self) -> bool {
        self.accepting
    }

    pub fn new() -> (r: Listener)
        ensures
            r.spec_accepting(),
    {
        Listener { accepting: true }
    }

    pub fn is_accepting(&self) -> (r: bool)
        ensures
            r == self.spec_accepting(),
    {
        self.accepting
    }

    /// Feeds one event to the loop and yields the demanded action.
    pub fn on_event(&mut self, ev: ListenerEvent) -> (r: ListenerAction)
        ensures
            (final(self).spec_accepting(), r) == listener_step(old(self).spec_accepting(), ev),
    {
        if !self.accepting {
            ListenerAction::Ignore
        } else {
            match ev {
                ListenerEvent::ShutdownSignal => {
                    self.accepting = false;
                    ListenerAction::DrainAndStop
                },
                ListenerEvent::ConnectionAccepted => ListenerAction::Serve,
                ListenerEvent::AcceptFailed => ListenerAction::Ignore,
            }
        }
    }
}

/// Whether a run over the events, from the given state, ever serves a
/// connection.
pub open spec fn serves_any(accepting: bool, evs: Seq<ListenerEvent>) -> bool
    decreases evs.len(),
{
    if evs.len() == 0 {
        false
    } else {
        let (next, action) = listener_step(accepting, evs[0]);
        action == ListenerAction::Serve || serves_any(next, evs.drop_first())
    }
}

/// A shutdown signal stops every listener's accept loop for good: from
/// the stopped state no sequence of further events ever serves a new
/// connection, and the loop stays stopped.  (The signal's step itself
/// demands `DrainAndStop`, under which the outstanding connections
/// complete before the loop returns.)
pub proof fn lemma_no_accept_after_shutdown(evs: Seq<ListenerEvent>)
    ensures
        !serves_any(false, evs),
        listener_step(true, ListenerEvent::ShutdownSignal) == (
            false,
            ListenerAction::DrainAndStop,
        ),
    decreases evs.len(),
{
    if evs.len() > 0 {
        lemma_no_accept_after_shutdown(evs.drop_first());
    }
}

} // verus!
