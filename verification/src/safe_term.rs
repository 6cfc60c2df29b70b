use vstd::prelude::*;

verus! {

/// The state byte before a termination request.
pub const RELAXED: u8 = 0;

/// The state byte once the program has been asked to terminate.
pub const TERMINATING: u8 = 1;

/// Remembers whether the process has been asked to terminate (Ctrl-C).
pub struct SafeTerm {
    state: u8,
}

impl View for SafeTerm {
    type V = u8;

    closed spec fn view(&self) -> u8 {
        self.state
    }
}

impl SafeTerm {
    pub fn new() -> (t: SafeTerm)
        ensures
            t@ == RELAXED,
    {
        SafeTerm { state: RELAXED }
    }

    /// What the termination handler does: it records the request.
    pub fn terminate(&mut self)
        ensures
            final(self)@ == TERMINATING,
    {
        self.state = TERMINATING;
    }

    pub fn has_stop_signal_arrived(&self) -> (b: bool)
        ensures
            b == (self@ == TERMINATING),
    {
        self.state == TERMINATING
    }
}

} // verus!
