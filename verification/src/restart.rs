//! The request to restart the proxy: a single slot that any number of requests
//! fill, and that the supervisor empties.

use vstd::prelude::*;

verus! {

/// Whether a restart has been asked for and not yet been taken up.
pub struct RestartSignal {
    pending: bool,
}

impl View for RestartSignal {
    type V = bool;

    closed spec fn view(&self) -> bool {
        self.pending
    }
}

impl RestartSignal {
    /// A signal that nobody has raised.
    pub fn new() -> (signal: RestartSignal)
        ensures
            !signal@,
    {
        RestartSignal { pending: false }
    }

    /// Asks for a restart. Asking again before the request is taken up changes
    /// nothing.
    pub fn signal(&mut self)
        ensures
            final(self)@,
    {
        self.pending = true;
    }

    /// Takes the request up: tells whether a restart was asked for, and leaves the
    /// slot empty.
    pub fn consume(&mut self) -> (requested: bool)
        ensures
            requested == old(self)@,
            !final(self)@,
    {
        let requested = self.pending;
        self.pending = false;
        requested
    }

    /// Tells whether a restart has been asked for and not yet been taken up.
    pub fn is_pending(&self) -> (pending: bool)
        ensures
            pending == self@,
    {
        self.pending
    }
}

} // verus!
