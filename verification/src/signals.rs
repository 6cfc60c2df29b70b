use vstd::prelude::*;

verus! {

/// Commands exchanged between the listener's workers, each carried as a byte.
#[derive(Copy, Clone, Debug, PartialEq, Eq, Structural)]
pub enum Signals {
    /// Nothing to do.
    NoSignal,
    /// Stop every worker and let the program end.
    Shutdown,
    /// Debug command: print a greeting.
    PrintHelloWorld,
    /// Ask the log writer to flush and stop.
    StopLogger,
    /// The log writer has flushed and stopped.
    LoggerReadyShutdown,
}

impl Signals {
    /// The byte that carries this signal: the variant's position in the declaration.
    pub open spec fn code(self) -> u8 {
        match self {
            Signals::NoSignal => 0,
            Signals::Shutdown => 1,
            Signals::PrintHelloWorld => 2,
            Signals::StopLogger => 3,
            Signals::LoggerReadyShutdown => 4,
        }
    }

    pub fn as_uint(&self) -> (code: u8)
        ensures
            code == self.code(),
    {
        match self {
            Signals::NoSignal => 0,
            Signals::Shutdown => 1,
            Signals::PrintHelloWorld => 2,
            Signals::StopLogger => 3,
            Signals::LoggerReadyShutdown => 4,
        }
    }
}

/// Distinct signals travel as distinct bytes, so a receiver can tell them apart.
pub proof fn lemma_signal_codes_distinct(a: Signals, b: Signals)
    ensures
        a.code() == b.code() <==> a == b,
{
}

} // verus!
