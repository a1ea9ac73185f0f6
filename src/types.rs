//! Run-wide records: crash statistics, the kind of input being fuzzed, and
//! the description of an input that the analyzer may persist.

use vstd::prelude::*;

verus! {

/// One counter per termination class with a report directory, plus `total`.
#[derive(Clone, Copy, Debug, PartialEq, Eq, Structural)]
pub struct CrashStats {
    pub total: u64,
    pub sigill: u64,
    pub sigabrt: u64,
    pub sigfpe: u64,
    pub sigsegv: u64,
    pub sigpipe: u64,
    pub sigterm: u64,
    pub timeout: u64,
}

impl CrashStats {
    /// All counters at zero.
    pub open spec fn new_spec() -> CrashStats {
        CrashStats {
            total: 0,
            sigill: 0,
            sigabrt: 0,
            sigfpe: 0,
            sigsegv: 0,
            sigpipe: 0,
            sigterm: 0,
            timeout: 0,
        }
    }

    /// All counters at zero.
    pub fn new() -> (r: CrashStats)
        ensures
            r == CrashStats::new_spec(),
            r.consistent(),
    {
        CrashStats {
            total: 0,
            sigill: 0,
            sigabrt: 0,
            sigfpe: 0,
            sigsegv: 0,
            sigpipe: 0,
            sigterm: 0,
            timeout: 0,
        }
    }

    /// The sum of the seven class counters.
    pub open spec fn class_sum(self) -> int {
        self.sigill + self.sigabrt + self.sigfpe + self.sigsegv + self.sigpipe + self.sigterm
            + self.timeout
    }

    /// `total` is the sum of the seven class counters.
    pub open spec fn consistent(self) -> bool {
        self.total == self.class_sum()
    }
}

/// The kinds of input the fuzzer knows; only the first three have a format.
#[derive(Clone, Copy, Debug, PartialEq, Eq, Structural)]
pub enum FuzzType {
    String,
    Txt,
    Jpeg,
    Png,
    Pdf,
    SignedInt,
    UnsignedInt,
}

/// A validated run configuration. The random source is not part of it: the
/// fuzz loop owns it.
pub struct Config {
    pub bin_args: Vec<String>,
    pub bin_path: String,
    pub crash_stats: CrashStats,
    pub iterations: usize,
    pub report_path: String,
    pub timeout: u64,
    pub validated_fuzz_type: FuzzType,
    pub seed: Option<u64>,
}

/// The input of one iteration, as the analyzer sees it.
pub enum StructuredInput {
    /// Bytes passed to the target as command-line arguments.
    StringInput(Vec<u8>),
    /// A file at `path` with extension `extension` passed by its path.
    FileInput { path: String, extension: String },
}

} // verus!
