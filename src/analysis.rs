//! Crash analysis: the class of a termination, the counters it bumps, and
//! where its input is persisted inside the run's report directory.

use crate::errors::{ExitStatus, SIGABRT, SIGFPE, SIGILL, SIGPIPE, SIGSEGV, SIGTERM};
use crate::report::{is_digit, lemma_decimal_value};
use crate::text::{decimal, push_decimal};
use crate::types::{CrashStats, StructuredInput};
use vstd::prelude::*;
use vstd::string::StringExecFns;

verus! {

/// A termination class.
#[derive(Clone, Copy, Debug, PartialEq, Eq, Structural)]
pub enum CrashClass {
    Sigill,
    Sigabrt,
    Sigfpe,
    Sigsegv,
    Sigpipe,
    Sigterm,
    Timeout,
}

/// What the analyzer does with one termination.
#[derive(Clone, Copy, Debug, PartialEq, Eq, Structural)]
pub enum Verdict {
    /// Normal exit: nothing is recorded and a file input is deleted.
    Clean,
    /// A crash of this class: counted and persisted.
    Crash(CrashClass),
    /// Killed by a signal with no class of its own: only logged, with no
    /// counter and no report directory.
    Unclassified(i32),
    /// The run could not be started: only logged.
    Failed,
}

pub open spec fn signal_class(sig: i32) -> Option<CrashClass> {
    if sig == SIGILL {
        Some(CrashClass::Sigill)
    } else if sig == SIGABRT {
        Some(CrashClass::Sigabrt)
    } else if sig == SIGFPE {
        Some(CrashClass::Sigfpe)
    } else if sig == SIGSEGV {
        Some(CrashClass::Sigsegv)
    } else if sig == SIGPIPE {
        Some(CrashClass::Sigpipe)
    } else if sig == SIGTERM {
        Some(CrashClass::Sigterm)
    } else {
        None
    }
}

pub open spec fn verdict_of(status: ExitStatus) -> Verdict {
    match status {
        ExitStatus::ExitCode(_) => Verdict::Clean,
        ExitStatus::Signal(sig) => match signal_class(sig) {
            Some(c) => Verdict::Crash(c),
            None => Verdict::Unclassified(sig),
        },
        ExitStatus::Timeout(_) => Verdict::Crash(CrashClass::Timeout),
        ExitStatus::Error(_) => Verdict::Failed,
    }
}

/// The counters after recording verdict `v`: a crash bumps its class counter
/// and `total`; anything else leaves the counters as they are.
pub open spec fn bumped(s: CrashStats, v: Verdict) -> CrashStats {
    match v {
        Verdict::Crash(c) => {
            let t = CrashStats { total: (s.total + 1) as u64, ..s };
            match c {
                CrashClass::Sigill => CrashStats { sigill: (s.sigill + 1) as u64, ..t },
                CrashClass::Sigabrt => CrashStats { sigabrt: (s.sigabrt + 1) as u64, ..t },
                CrashClass::Sigfpe => CrashStats { sigfpe: (s.sigfpe + 1) as u64, ..t },
                CrashClass::Sigsegv => CrashStats { sigsegv: (s.sigsegv + 1) as u64, ..t },
                CrashClass::Sigpipe => CrashStats { sigpipe: (s.sigpipe + 1) as u64, ..t },
                CrashClass::Sigterm => CrashStats { sigterm: (s.sigterm + 1) as u64, ..t },
                CrashClass::Timeout => CrashStats { timeout: (s.timeout + 1) as u64, ..t },
            }
        },
        _ => s,
    }
}

/// No counter is at its maximum, so one more record cannot overflow.
pub open spec fn can_record(s: CrashStats) -> bool {
    s.total < u64::MAX && s.sigill < u64::MAX && s.sigabrt < u64::MAX && s.sigfpe < u64::MAX
        && s.sigsegv < u64::MAX && s.sigpipe < u64::MAX && s.sigterm < u64::MAX && s.timeout
        < u64::MAX
}

/// The report subdirectory of a class.
pub open spec fn class_dir(c: CrashClass) -> Seq<char> {
    match c {
        CrashClass::Sigill => "SIGILL"@,
        CrashClass::Sigabrt => "SIGABRT"@,
        CrashClass::Sigfpe => "SIGFPE"@,
        CrashClass::Sigsegv => "SIGSEGV"@,
        CrashClass::Sigpipe => "SIGPIPE"@,
        CrashClass::Sigterm => "SIGTERM"@,
        CrashClass::Timeout => "TIMEOUT"@,
    }
}

/// The seven class directories that a run's report directory holds.
pub open spec fn report_class_dirs() -> Seq<Seq<char>> {
    seq!["SIGILL"@, "SIGABRT"@, "SIGFPE"@, "SIGSEGV"@, "SIGPIPE"@, "SIGTERM"@, "TIMEOUT"@]
}

/// The extension a persisted input gets: `bin` for argv bytes, the file's
/// own extension otherwise.
pub open spec fn input_ext(input: StructuredInput) -> Seq<char> {
    match input {
        StructuredInput::StringInput(_) => "bin"@,
        StructuredInput::FileInput { extension, .. } => extension@,
    }
}

/// `crash-<id>.<ext>`.
pub open spec fn crash_file_name(id: nat, ext: Seq<char>) -> Seq<char> {
    "crash-"@ + decimal(id) + "."@ + ext
}

/// Path of a persisted crash, relative to the run's report directory.
pub open spec fn crash_path(c: CrashClass, id: nat, ext: Seq<char>) -> Seq<char> {
    class_dir(c) + "/"@ + crash_file_name(id, ext)
}

/// The class of a signal number.
pub fn classify_signal(sig: i32) -> (r: Option<CrashClass>)
    ensures
        r == signal_class(sig),
{
    if sig == SIGILL {
        Some(CrashClass::Sigill)
    } else if sig == SIGABRT {
        Some(CrashClass::Sigabrt)
    } else if sig == SIGFPE {
        Some(CrashClass::Sigfpe)
    } else if sig == SIGSEGV {
        Some(CrashClass::Sigsegv)
    } else if sig == SIGPIPE {
        Some(CrashClass::Sigpipe)
    } else if sig == SIGTERM {
        Some(CrashClass::Sigterm)
    } else {
        None
    }
}

/// Classifies a termination and updates the counters accordingly.
pub fn analyze_result(stats: &mut CrashStats, result: &ExitStatus) -> (r: Verdict)
    requires
        can_record(*old(stats)),
    ensures
        r == verdict_of(*result),
        *final(stats) == bumped(*old(stats), r),
{
    let v = match result {
        ExitStatus::ExitCode(_) => Verdict::Clean,
        ExitStatus::Signal(sig) => match classify_signal(*sig) {
            Some(c) => Verdict::Crash(c),
            None => Verdict::Unclassified(*sig),
        },
        ExitStatus::Timeout(_) => Verdict::Crash(CrashClass::Timeout),
        ExitStatus::Error(_) => Verdict::Failed,
    };
    if let Verdict::Crash(c) = v {
        match c {
            CrashClass::Sigill => stats.sigill = stats.sigill + 1,
            CrashClass::Sigabrt => stats.sigabrt = stats.sigabrt + 1,
            CrashClass::Sigfpe => stats.sigfpe = stats.sigfpe + 1,
            CrashClass::Sigsegv => stats.sigsegv = stats.sigsegv + 1,
            CrashClass::Sigpipe => stats.sigpipe = stats.sigpipe + 1,
            CrashClass::Sigterm => stats.sigterm = stats.sigterm + 1,
            CrashClass::Timeout => stats.timeout = stats.timeout + 1,
        }
        stats.total = stats.total + 1;
    }
    v
}

/// The directory name of a class.
pub fn class_dir_name(c: CrashClass) -> (r: &'static str)
    ensures
        r@ == class_dir(c),
{
    match c {
        CrashClass::Sigill => "SIGILL",
        CrashClass::Sigabrt => "SIGABRT",
        CrashClass::Sigfpe => "SIGFPE",
        CrashClass::Sigsegv => "SIGSEGV",
        CrashClass::Sigpipe => "SIGPIPE",
        CrashClass::Sigterm => "SIGTERM",
        CrashClass::Timeout => "TIMEOUT",
    }
}

/// The extension under which an input is persisted.
pub fn crash_extension(input: &StructuredInput) -> (r: String)
    ensures
        r@ == input_ext(*input),
{
    match input {
        StructuredInput::StringInput(_) => String::from_str("bin"),
        StructuredInput::FileInput { extension, .. } => extension.clone(),
    }
}

/// Where the input of crash `id` of class `c` is persisted, relative to the
/// run's report directory.
pub fn crash_relative_path(c: CrashClass, id: u64, input: &StructuredInput) -> (r: String)
    ensures
        r@ == crash_path(c, id as nat, input_ext(*input)),
{
    let mut s = String::from_str(class_dir_name(c));
    s.append("/");
    s.append("crash-");
    push_decimal(&mut s, id);
    s.append(".");
    let ext = crash_extension(input);
    s.append(ext.as_str());
    proof {
        assert(s@ =~= crash_path(c, id as nat, input_ext(*input)));
    }
    s
}

/// Recording any termination keeps `total` equal to the sum of the seven
/// class counters.
pub proof fn lemma_record_keeps_total(s: CrashStats, status: ExitStatus)
    requires
        s.consistent(),
        can_record(s),
    ensures
        bumped(s, verdict_of(status)).consistent(),
{
}

/// Every counter is non-decreasing under a record, and `total` grows by one
/// exactly when a crash is recorded.
pub proof fn lemma_record_monotone(s: CrashStats, v: Verdict)
    requires
        can_record(s),
    ensures
        bumped(s, v).total >= s.total,
        bumped(s, v).sigill >= s.sigill,
        bumped(s, v).sigabrt >= s.sigabrt,
        bumped(s, v).sigfpe >= s.sigfpe,
        bumped(s, v).sigsegv >= s.sigsegv,
        bumped(s, v).sigpipe >= s.sigpipe,
        bumped(s, v).sigterm >= s.sigterm,
        bumped(s, v).timeout >= s.timeout,
        bumped(s, v).total == s.total + 1 <==> v is Crash,
{
}

/// Only a crash verdict is persisted, and a crash lies in one of the seven
/// class directories of the run, directly inside it.
pub proof fn lemma_crash_in_class_dir(status: ExitStatus, id: nat, ext: Seq<char>)
    ensures
        verdict_of(status) is Crash ==> exists|k: int|
            0 <= k < 7 && #[trigger] crash_path(verdict_of(status)->Crash_0, id, ext)
                == report_class_dirs()[k] + "/"@ + crash_file_name(id, ext),
{
    if verdict_of(status) is Crash {
        let c = verdict_of(status)->Crash_0;
        let k: int = match c {
            CrashClass::Sigill => 0,
            CrashClass::Sigabrt => 1,
            CrashClass::Sigfpe => 2,
            CrashClass::Sigsegv => 3,
            CrashClass::Sigpipe => 4,
            CrashClass::Sigterm => 5,
            CrashClass::Timeout => 6,
        };
        assert(crash_path(c, id, ext) == report_class_dirs()[k] + "/"@ + crash_file_name(id, ext));
    }
}

/// No two iterations share a crash file name.
pub proof fn lemma_crash_names_distinct(a: nat, b: nat, ext: Seq<char>)
    requires
        a != b,
    ensures
        crash_file_name(a, ext) != crash_file_name(b, ext),
{
    lemma_decimal_value(a);
    lemma_decimal_value(b);
    let da = decimal(a);
    let db = decimal(b);
    let na = crash_file_name(a, ext);
    let nb = crash_file_name(b, ext);
    reveal_strlit("crash-");
    reveal_strlit(".");
    if na == nb {
        if da.len() == db.len() {
            assert(da =~= db) by {
                assert forall|i: int| 0 <= i < da.len() implies da[i] == db[i] by {
                    assert(na[6 + i] == da[i]);
                    assert(nb[6 + i] == db[i]);
                }
            }
        } else if da.len() < db.len() {
            assert(na[6 + da.len() as int] == '.');
            assert(nb[6 + da.len() as int] == db[da.len() as int]);
            assert(is_digit(db[da.len() as int]));
        } else {
            assert(nb[6 + db.len() as int] == '.');
            assert(na[6 + db.len() as int] == da[db.len() as int]);
            assert(is_digit(da[db.len() as int]));
        }
    }
}

} // verus!
