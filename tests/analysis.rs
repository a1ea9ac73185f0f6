use fuzzer::analysis::{analyze_result, crash_relative_path, CrashClass, Verdict};
use fuzzer::errors::{ExitStatus, SIGABRT, SIGSEGV};
use fuzzer::report::{next_ordinal, ordinal_dir_name, parse_ordinal};
use fuzzer::types::{CrashStats, StructuredInput};

#[test]
fn clean_exits_record_nothing() {
    let mut s = CrashStats::new();
    for _ in 0..10 {
        assert_eq!(analyze_result(&mut s, &ExitStatus::ExitCode(0)), Verdict::Clean);
    }
    assert_eq!(s, CrashStats::new());
}

#[test]
fn segfaults_are_counted_and_named() {
    let mut s = CrashStats::new();
    let mut paths = Vec::new();
    for i in 0..5u64 {
        let v = analyze_result(&mut s, &ExitStatus::Signal(SIGSEGV));
        assert_eq!(v, Verdict::Crash(CrashClass::Sigsegv));
        paths.push(crash_relative_path(CrashClass::Sigsegv, i, &StructuredInput::StringInput(vec![])));
    }
    assert_eq!(s.sigsegv, 5);
    assert_eq!(s.total, 5);
    assert_eq!(paths[0], "SIGSEGV/crash-0.bin");
    assert_eq!(paths[4], "SIGSEGV/crash-4.bin");
}

#[test]
fn timeouts_keep_the_file_extension() {
    let mut s = CrashStats::new();
    for _ in 0..3 {
        assert_eq!(analyze_result(&mut s, &ExitStatus::Timeout(50)), Verdict::Crash(CrashClass::Timeout));
    }
    assert_eq!((s.timeout, s.total), (3, 3));
    let input = StructuredInput::FileInput { path: "m/1.txt".to_string(), extension: "txt".to_string() };
    assert_eq!(crash_relative_path(CrashClass::Timeout, 1, &input), "TIMEOUT/crash-1.txt");
}

#[test]
fn total_is_sum_of_classes() {
    let mut s = CrashStats::new();
    let results = [
        ExitStatus::Signal(4),
        ExitStatus::Signal(SIGABRT),
        ExitStatus::Signal(8),
        ExitStatus::Signal(13),
        ExitStatus::Signal(15),
        ExitStatus::Timeout(1),
        ExitStatus::ExitCode(3),
        ExitStatus::Error("x".to_string()),
    ];
    for r in &results {
        analyze_result(&mut s, r);
        let sum = s.sigill + s.sigabrt + s.sigfpe + s.sigsegv + s.sigpipe + s.sigterm + s.timeout;
        assert_eq!(s.total, sum);
    }
    assert_eq!(s.total, 6);
}

#[test]
fn unclassified_signal_leaves_counters() {
    let mut s = CrashStats::new();
    assert_eq!(analyze_result(&mut s, &ExitStatus::Signal(9)), Verdict::Unclassified(9));
    assert_eq!(analyze_result(&mut s, &ExitStatus::Signal(7)), Verdict::Unclassified(7));
    assert_eq!(s, CrashStats::new());
}

#[test]
fn spawn_errors_record_nothing() {
    let mut s = CrashStats::new();
    assert_eq!(analyze_result(&mut s, &ExitStatus::Error("no such file".to_string())), Verdict::Failed);
    assert_eq!(s.total, 0);
}

#[test]
fn ordinals_of_report_directories() {
    assert_eq!(parse_ordinal("0001"), Some(1));
    assert_eq!(parse_ordinal("+7"), Some(7));
    assert_eq!(parse_ordinal("abc"), None);
    assert_eq!(parse_ordinal(""), None);
    assert_eq!(parse_ordinal("+"), None);
    assert_eq!(parse_ordinal("4294967295"), Some(u32::MAX));
    assert_eq!(parse_ordinal("4294967296"), None);
    let names: Vec<String> = vec!["0001".into(), "0003".into(), "notes".into()];
    assert_eq!(next_ordinal(&names), Some(4));
    assert_eq!(next_ordinal(&vec![]), Some(1));
    assert_eq!(next_ordinal(&vec!["4294967295".to_string()]), None);
    assert_eq!(ordinal_dir_name(1), "0001");
    assert_eq!(ordinal_dir_name(42), "0042");
    assert_eq!(ordinal_dir_name(12345), "12345");
}

#[test]
fn successive_runs_increase_the_ordinal() {
    let mut names: Vec<String> = vec![];
    let mut last = 0;
    for _ in 0..12 {
        let n = next_ordinal(&names).unwrap();
        assert!(n > last);
        last = n;
        names.push(ordinal_dir_name(n));
    }
    assert_eq!(last, 12);
}
