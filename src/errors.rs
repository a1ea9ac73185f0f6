//! How a target run ended, and the POSIX signal numbers used to classify it.

use vstd::prelude::*;

verus! {

/// The termination of one target run.
#[derive(Debug, PartialEq, Eq)]
pub enum ExitStatus {
    /// Normal exit with this exit code.
    ExitCode(i32),
    /// Killed by this signal.
    Signal(i32),
    /// Exceeded the wall-clock budget of this many milliseconds and was killed.
    Timeout(u64),
    /// The target could not be started or its end could not be told.
    Error(String),
}

pub const SIGILL: i32 = 4;

pub const SIGABRT: i32 = 6;

pub const SIGFPE: i32 = 8;

pub const SIGSEGV: i32 = 11;

pub const SIGPIPE: i32 = 13;

pub const SIGTERM: i32 = 15;

} // verus!
