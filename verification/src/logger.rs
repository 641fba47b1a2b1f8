//! The verbosity setting that the command line and the environment choose.
use vstd::prelude::*;

verus! {

/// How much the program reports about its own work on standard error.
#[derive(Clone, Copy, PartialEq, Eq, Debug, Structural)]
pub struct Logger {
    pub mode: LoggerMode,
}

/// Verbosity levels, from the most talkative to silence.
#[derive(Clone, Copy, PartialEq, Eq, PartialOrd, Debug, Structural)]
pub enum LoggerMode {
    /// Timing reports as well as verbose messages.
    Performance,
    /// Verbose messages.
    Verbose,
    /// Nothing.
    Disabled,
}

impl Logger {
    /// A logger that reports nothing.
    pub fn new() -> (l: Logger)
        ensures
            l.mode == LoggerMode::Disabled,
    {
        Logger { mode: LoggerMode::Disabled }
    }
}

} // verus!
