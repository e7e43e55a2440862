//! The life of the listener: binding, serving, draining and binding again.
//!
//! The supervisor decides; whoever runs it binds sockets, serves and sleeps, and
//! reports back what happened.

use crate::port::{poll_result, poll_step, PortState};
use crate::restart::RestartSignal;
use vstd::prelude::*;

verus! {

/// How long the supervisor backs off before it binds again, in milliseconds.
pub const BACKOFF_MS: u64 = 1000;

/// The name of the notification that tells the host that the proxy listens.
pub const STARTED_NOTIFICATION: &'static str = "proxy-server-started";

/// Where the supervisor stands. `Draining` and `BackingOff` are the two halves of
/// stopping.
#[derive(Clone, Copy, Debug, PartialEq, Eq, Structural)]
pub enum Phase {
    /// A listener is being bound.
    Starting,
    /// The listener on `port` serves requests.
    Listening { port: u16 },
    /// The listener on `port` takes no new connections and finishes those it has.
    Draining { port: u16 },
    /// No listener is live; the supervisor waits before it binds again.
    BackingOff,
}

/// What happened to what the supervisor last asked for.
#[derive(Clone, Copy, Debug, PartialEq, Eq, Structural)]
pub enum Event {
    /// A listener was bound on `port`.
    Bound { port: u16 },
    /// No listener could be bound.
    BindFailed,
    /// The restart signal woke the supervisor.
    Signaled,
    /// The listener failed, or stopped by itself.
    ServeFailed,
    /// The listener has finished its connections and is gone.
    Drained,
    /// The backoff is over.
    BackoffElapsed,
}

/// What the supervisor asks for next.
#[derive(Clone, Copy, Debug, PartialEq, Eq, Structural)]
pub enum Action {
    /// Bind a listener on a port that the system picks, on all interfaces.
    Bind,
    /// Tell the host that the proxy listens on `port`, and serve requests until the
    /// restart signal wakes the supervisor or the listener fails.
    Serve { port: u16 },
    /// Stop taking connections and let the accepted ones finish.
    Drain,
    /// Sleep for so many milliseconds.
    Backoff { millis: u64 },
    /// Go on with what is being done.
    Continue,
}

/// A phase with what is to be done in it, and what is left of the restart signal.
pub struct Transition {
    pub phase: Phase,
    pub action: Action,
    pub pending: bool,
}

/// The port that callers are shown in a phase: that of the live listener, and 0
/// while there is none.
pub open spec fn published_port(phase: Phase) -> u16 {
    match phase {
        Phase::Listening { port } => port,
        Phase::Draining { port } => port,
        _ => 0,
    }
}

/// Whether a phase names a port that a listener can have.
pub open spec fn phase_is_valid(phase: Phase) -> bool {
    match phase {
        Phase::Listening { port } => port != 0,
        Phase::Draining { port } => port != 0,
        _ => true,
    }
}

/// What the supervisor makes of an event. `pending` says whether the restart signal
/// is raised. An event that does not belong to the phase changes nothing.
pub open spec fn transition(phase: Phase, event: Event, pending: bool) -> Transition {
    match (phase, event) {
        (Phase::Starting, Event::Bound { port }) => if port != 0 {
            Transition { phase: Phase::Listening { port }, action: Action::Serve { port }, pending }
        } else {
            Transition {
                phase: Phase::BackingOff,
                action: Action::Backoff { millis: BACKOFF_MS },
                pending,
            }
        },
        (Phase::Starting, Event::BindFailed) => Transition {
            phase: Phase::BackingOff,
            action: Action::Backoff { millis: BACKOFF_MS },
            pending,
        },
        (Phase::Listening { port }, Event::Signaled) => if pending {
            Transition { phase: Phase::Draining { port }, action: Action::Drain, pending: false }
        } else {
            Transition { phase, action: Action::Continue, pending }
        },
        (Phase::Listening { port }, Event::ServeFailed) => Transition {
            phase: Phase::BackingOff,
            action: Action::Backoff { millis: BACKOFF_MS },
            pending,
        },
        (Phase::Draining { port }, Event::Drained) => Transition {
            phase: Phase::BackingOff,
            action: Action::Backoff { millis: BACKOFF_MS },
            pending,
        },
        (Phase::Draining { port }, Event::ServeFailed) => Transition {
            phase: Phase::BackingOff,
            action: Action::Backoff { millis: BACKOFF_MS },
            pending,
        },
        (Phase::BackingOff, Event::BackoffElapsed) => Transition {
            phase: Phase::Starting,
            action: Action::Bind,
            pending,
        },
        _ => Transition { phase, action: Action::Continue, pending },
    }
}

/// Runs the listener's life. It alone writes the port that callers are shown.
pub struct Supervisor {
    phase: Phase,
}

impl Supervisor {
    #[verifier::type_invariant]
    closed spec fn wf(self) -> bool {
        phase_is_valid(self.phase)
    }

    /// The phase that the supervisor is in.
    pub closed spec fn phase(self) -> Phase {
        self.phase
    }

    /// A supervisor that is about to bind its first listener: it starts in
    /// `Phase::Starting`, and what it asks for first is `Action::Bind`.
    pub fn new() -> (supervisor: Supervisor)
        ensures
            supervisor.phase() == Phase::Starting,
    {
        Supervisor { phase: Phase::Starting }
    }

    /// The phase that the supervisor is in.
    pub fn current_phase(&self) -> (phase: Phase)
        ensures
            phase == self.phase(),
            phase_is_valid(phase),
    {
        proof {
            use_type_invariant(self);
        }
        self.phase
    }

    /// Takes in what happened, moves to the next phase, shows callers that phase's
    /// port, takes up the restart signal where it acts on it, and says what to do
    /// next.
    pub fn step(&mut self, event: Event, port: &mut PortState, restart: &mut RestartSignal) -> (action:
        Action)
        ensures
            final(self).phase() == transition(old(self).phase(), event, old(restart)@).phase,
            action == transition(old(self).phase(), event, old(restart)@).action,
            final(restart)@ == transition(old(self).phase(), event, old(restart)@).pending,
            final(port)@ == published_port(final(self).phase()),
            phase_is_valid(final(self).phase()),
    {
        proof {
            use_type_invariant(&*self);
        }
        let (phase, action) = match (self.phase, event) {
            (Phase::Starting, Event::Bound { port: bound }) => if bound != 0 {
                (Phase::Listening { port: bound }, Action::Serve { port: bound })
            } else {
                (Phase::BackingOff, Action::Backoff { millis: BACKOFF_MS })
            },
            (Phase::Starting, Event::BindFailed) => (
                Phase::BackingOff,
                Action::Backoff { millis: BACKOFF_MS },
            ),
            (Phase::Listening { port: live }, Event::Signaled) => if restart.consume() {
                (Phase::Draining { port: live }, Action::Drain)
            } else {
                (self.phase, Action::Continue)
            },
            (Phase::Listening { port: _ }, Event::ServeFailed) => (
                Phase::BackingOff,
                Action::Backoff { millis: BACKOFF_MS },
            ),
            (Phase::Draining { port: _ }, Event::Drained) => (
                Phase::BackingOff,
                Action::Backoff { millis: BACKOFF_MS },
            ),
            (Phase::Draining { port: _ }, Event::ServeFailed) => (
                Phase::BackingOff,
                Action::Backoff { millis: BACKOFF_MS },
            ),
            (Phase::BackingOff, Event::BackoffElapsed) => (Phase::Starting, Action::Bind),
            _ => (self.phase, Action::Continue),
        };
        self.phase = phase;
        match phase {
            Phase::Listening { port: live } => port.set(live),
            Phase::Draining { port: live } => port.set(live),
            _ => port.set(0),
        }
        action
    }
}

/// The phase that a run of events leads to from `phase`, with what is then left of
/// the restart signal.
pub open spec fn after(phase: Phase, pending: bool, events: Seq<Event>) -> (Phase, bool)
    decreases events.len(),
{
    if events.len() == 0 {
        (phase, pending)
    } else {
        let before = after(phase, pending, events.drop_last());
        let last = transition(before.0, events.last(), before.1);
        (last.phase, last.pending)
    }
}

/// A restart leads to a new listener. From a listener that serves, a raised signal
/// makes the supervisor drain it; once it is drained callers are shown port 0, the
/// supervisor backs off for `BACKOFF_MS` and then binds; and when that listener is
/// bound on `next`, callers are shown `next`, which is not 0, so that whoever waits
/// for the port then gets `next` at the next look. The signal is used up by the one
/// restart.
pub proof fn law_restart_binds_anew(port: u16, next: u16)
    requires
        port != 0,
        next != 0,
    ensures
        transition(Phase::Listening { port }, Event::Signaled, true).action == Action::Drain,
        transition(Phase::Draining { port }, Event::Drained, false).action == (Action::Backoff {
            millis: BACKOFF_MS,
        }),
        published_port(transition(Phase::Draining { port }, Event::Drained, false).phase) == 0,
        transition(Phase::BackingOff, Event::BackoffElapsed, false).action == Action::Bind,
        after(
            Phase::Listening { port },
            true,
            seq![
                Event::Signaled,
                Event::Drained,
                Event::BackoffElapsed,
                Event::Bound { port: next },
            ],
        ) == (Phase::Listening { port: next }, false),
        published_port(Phase::Listening { port: next }) == next,
        forall|elapsed_ms: u64, timeout_ms: u64, interval_ms: u64|
            poll_result(
                #[trigger] poll_step(
                    published_port(Phase::Listening { port: next }),
                    elapsed_ms,
                    timeout_ms,
                    interval_ms,
                ),
            ) == Some(next),
{
    let events = seq![
        Event::Signaled,
        Event::Drained,
        Event::BackoffElapsed,
        Event::Bound { port: next },
    ];
    let three = events.drop_last();
    let two = three.drop_last();
    let one = two.drop_last();
    assert(one.drop_last() =~= Seq::<Event>::empty());
    assert(after(Phase::Listening { port }, true, one.drop_last()) == (
        Phase::Listening { port },
        true,
    ));
    assert(one.last() == Event::Signaled);
    assert(after(Phase::Listening { port }, true, one) == (Phase::Draining { port }, false));
    assert(two.last() == Event::Drained);
    assert(after(Phase::Listening { port }, true, two) == (Phase::BackingOff, false));
    assert(three.last() == Event::BackoffElapsed);
    assert(after(Phase::Listening { port }, true, three) == (Phase::Starting, false));
    assert(events.last() == Event::Bound { port: next });
}

/// A failure to bind does not end the supervisor: it backs off for `BACKOFF_MS`,
/// with callers shown port 0, and then binds again.
pub proof fn law_bind_failure_is_retried(pending: bool)
    ensures
        transition(Phase::Starting, Event::BindFailed, pending).action == (Action::Backoff {
            millis: BACKOFF_MS,
        }),
        transition(Phase::Starting, Event::BindFailed, pending).phase == Phase::BackingOff,
        published_port(Phase::BackingOff) == 0,
        transition(Phase::BackingOff, Event::BackoffElapsed, pending).action == Action::Bind,
        transition(Phase::BackingOff, Event::BackoffElapsed, pending).phase == Phase::Starting,
{
}

/// At most one listener is live. A listener is bound only when the backoff is over,
/// and it begins to serve only out of `Phase::Starting`; the phases that have a
/// listener are left only for the backoff; and every phase that the supervisor
/// reaches is valid, so that the port shown is 0 exactly while no listener is live.
pub proof fn law_one_listener_at_a_time(phase: Phase, event: Event, pending: bool)
    requires
        phase_is_valid(phase),
    ensures
        phase_is_valid(transition(phase, event, pending).phase),
        transition(phase, event, pending).action == Action::Bind ==> phase == Phase::BackingOff,
        transition(phase, event, pending).action is Serve ==> phase == Phase::Starting
            && transition(phase, event, pending).phase is Listening,
        (phase is Listening || phase is Draining) ==> {
            let next = transition(phase, event, pending).phase;
            next == phase || next == Phase::BackingOff || (phase is Listening && next
                == Phase::Draining { port: published_port(phase) })
        },
        published_port(transition(phase, event, pending).phase) != 0 <==> (transition(
            phase,
            event,
            pending,
        ).phase is Listening || transition(phase, event, pending).phase is Draining),
{
}

/// A restart signal is acted on once: the supervisor takes it up only while a
/// listener serves, and taking it up lowers it; in every other phase it stays as
/// it is, so that a signal raised while the supervisor stops or starts is still
/// there when the next listener serves.
pub proof fn law_signal_is_taken_up_once(phase: Phase, event: Event, pending: bool)
    ensures
        transition(phase, event, pending).pending == (pending && !(phase is Listening && event
            == Event::Signaled)),
        transition(phase, event, pending).action == Action::Drain ==> pending && phase
            is Listening,
{
}

} // verus!
