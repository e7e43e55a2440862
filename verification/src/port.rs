//! The port that the proxy listens on, and waiting for it.

use vstd::prelude::*;

verus! {

/// How long a caller waits for the port, in milliseconds, unless it says otherwise.
pub const DEFAULT_TIMEOUT_MS: u64 = 10_000;

/// How long a caller sleeps between two looks at the port, in milliseconds, unless
/// it says otherwise.
pub const DEFAULT_POLL_INTERVAL_MS: u64 = 100;

/// The port that the proxy listens on now; 0 while it listens on none.
pub struct PortState {
    port: u16,
}

impl View for PortState {
    type V = u16;

    closed spec fn view(&self) -> u16 {
        self.port
    }
}

/// What a caller that waits for the port does after one look at it.
#[derive(Clone, Copy, Debug, PartialEq, Eq, Structural)]
pub enum PollStep {
    /// The proxy listens: the wait ends with this port.
    Ready(u16),
    /// The wait has lasted too long: it ends with port 0.
    TimedOut,
    /// Sleep for this many milliseconds, then look again.
    Sleep(u64),
}

/// What follows from one look at the port: a port other than 0 ends the wait;
/// failing that, the wait ends once more time has passed than `timeout_ms`; else the
/// caller sleeps for `interval_ms` and looks again.
pub open spec fn poll_step(port: u16, elapsed_ms: u64, timeout_ms: u64, interval_ms: u64) -> PollStep {
    if port > 0 {
        PollStep::Ready(port)
    } else if elapsed_ms > timeout_ms {
        PollStep::TimedOut
    } else {
        PollStep::Sleep(interval_ms)
    }
}

/// The port that a wait ends with, where the step ends it.
pub open spec fn poll_result(step: PollStep) -> Option<u16> {
    match step {
        PollStep::Ready(port) => Some(port),
        PollStep::TimedOut => Some(0),
        PollStep::Sleep(_) => None,
    }
}

impl PortState {
    /// The state before the proxy has listened on any port.
    pub fn new() -> (state: PortState)
        ensures
            state@ == 0,
    {
        PortState { port: 0 }
    }

    /// Puts `port` in the place of the port held so far.
    pub fn set(&mut self, port: u16)
        ensures
            final(self)@ == port,
    {
        self.port = port;
    }

    /// The port held now.
    pub fn get(&self) -> (port: u16)
        ensures
            port == self@,
    {
        self.port
    }

    /// Decides what a caller does that has waited `elapsed_ms` for the port.
    pub fn poll(&self, elapsed_ms: u64, timeout_ms: u64, interval_ms: u64) -> (step: PollStep)
        ensures
            step == poll_step(self@, elapsed_ms, timeout_ms, interval_ms),
    {
        if self.port > 0 {
            PollStep::Ready(self.port)
        } else if elapsed_ms > timeout_ms {
            PollStep::TimedOut
        } else {
            PollStep::Sleep(interval_ms)
        }
    }

    /// Decides what a caller does that has waited `elapsed_ms` for the port, with
    /// the default timeout and interval.
    pub fn poll_default(&self, elapsed_ms: u64) -> (step: PollStep)
        ensures
            step == poll_step(self@, elapsed_ms, DEFAULT_TIMEOUT_MS, DEFAULT_POLL_INTERVAL_MS),
    {
        self.poll(elapsed_ms, DEFAULT_TIMEOUT_MS, DEFAULT_POLL_INTERVAL_MS)
    }
}

impl PollStep {
    /// The port that the wait ends with, where this step ends it.
    pub fn result(&self) -> (port: Option<u16>)
        ensures
            port == poll_result(*self),
    {
        match self {
            PollStep::Ready(port) => Some(*port),
            PollStep::TimedOut => Some(0),
            PollStep::Sleep(_) => None,
        }
    }
}

/// A wait ends with a port other than 0 exactly when the proxy listens, and it
/// never ends with a port other than the one that the state holds.
pub proof fn law_wait_yields_the_port(port: u16, elapsed_ms: u64, timeout_ms: u64, interval_ms: u64)
    ensures
        match poll_result(poll_step(port, elapsed_ms, timeout_ms, interval_ms)) {
            Some(found) => found == port && (port == 0 ==> elapsed_ms > timeout_ms),
            None => port == 0 && elapsed_ms <= timeout_ms,
        },
{
}

} // verus!
