use fuzzer::config::{parse_fuzz_type, split_target_args, ConfigError, RawConfig, TargetCheck};
use fuzzer::engine::{choose_seed, mutate_seed, mutated_file_name, require_seeds, EngineError};
use fuzzer::format::FileFormat;
use fuzzer::errors::ExitStatus;
use fuzzer::fuzz_string::FuzzString;
use fuzzer::jpeg::Jpeg;
use fuzzer::target::{argv_from_bytes, exit_status_from, file_arguments, split_on_spaces};
use fuzzer::txt::Txt;
use fuzzer::types::FuzzType;
use rand::rngs::SmallRng;
use rand::SeedableRng;

fn raw(fuzz_type: &str, args: &str) -> RawConfig {
    RawConfig {
        bin_path: "/bin/true".to_string(),
        fuzz_type: fuzz_type.to_string(),
        max_iterations: 10,
        timeout: 100,
        report_path: "./reports".to_string(),
        seed: Some(1),
        bin_args: args.to_string(),
    }
}

#[test]
fn empty_corpus_is_fatal() {
    let mut rng = SmallRng::seed_from_u64(1);
    assert_eq!(choose_seed(&mut rng, 0), Err(EngineError::EmptyCorpus));
    for _ in 0..50 {
        assert!(choose_seed(&mut rng, 3).unwrap() < 3);
    }
}

#[test]
fn empty_seed_gives_empty_bytes() {
    let mut rng = SmallRng::seed_from_u64(9);
    for _ in 0..20 {
        let (b, log) = mutate_seed::<FuzzString>(&mut rng, &[]);
        assert!(b.is_empty());
        assert!(log.len() < 5);
        let (b, _) = mutate_seed::<Txt>(&mut rng, &[]);
        assert!(b.is_empty());
        let (b, _) = mutate_seed::<Jpeg>(&mut rng, &[]);
        assert!(b.is_empty());
    }
}

#[test]
fn empty_fuzz_bytes_give_one_empty_argument() {
    let base = vec!["-v".to_string()];
    assert_eq!(argv_from_bytes(&base, &[]), vec!["-v".to_string(), String::new()]);
}

#[test]
fn same_seed_same_mutations() {
    let seed = b"hello world, this is a seed".to_vec();
    let mut a = SmallRng::seed_from_u64(3);
    let mut b = SmallRng::seed_from_u64(3);
    for _ in 0..32 {
        assert_eq!(mutate_seed::<FuzzString>(&mut a, &seed), mutate_seed::<FuzzString>(&mut b, &seed));
    }
}

#[test]
fn argv_splits_on_spaces_lossily() {
    let base = vec!["a".to_string()];
    let args = argv_from_bytes(&base, b"x  y\xFF");
    assert_eq!(args, vec!["a".to_string(), "x".to_string(), String::new(), "y\u{FFFD}".to_string()]);
    assert_eq!(split_on_spaces(b" "), vec![Vec::<u8>::new(), Vec::new()]);
}

#[test]
fn file_runs_append_the_path() {
    let base = vec!["--in".to_string()];
    assert_eq!(
        file_arguments(&base, &"/tmp/m/3.jpg".to_string()),
        vec!["--in".to_string(), "/tmp/m/3.jpg".to_string()]
    );
    assert_eq!(mutated_file_name(3, "jpg"), "3.jpg");
}

#[test]
fn wait_status_classification() {
    assert_eq!(exit_status_from(Some(11), Some(0)), ExitStatus::Signal(11));
    assert_eq!(exit_status_from(None, Some(2)), ExitStatus::ExitCode(2));
    assert_eq!(exit_status_from(None, None), ExitStatus::Error("unknown termination".to_string()));
}

#[test]
fn fuzz_type_names_ignore_case() {
    assert_eq!(parse_fuzz_type("JPG"), Some(FuzzType::Jpeg));
    assert_eq!(parse_fuzz_type("String"), Some(FuzzType::String));
    assert_eq!(parse_fuzz_type("txt"), Some(FuzzType::Txt));
    assert_eq!(parse_fuzz_type("uint"), Some(FuzzType::UnsignedInt));
    assert_eq!(parse_fuzz_type("int"), Some(FuzzType::SignedInt));
    assert_eq!(parse_fuzz_type("PNG"), Some(FuzzType::Png));
    assert_eq!(parse_fuzz_type("pdf"), Some(FuzzType::Pdf));
    assert_eq!(parse_fuzz_type("gif"), None);
}

#[test]
fn validation_errors() {
    assert_eq!(raw("string", "").validate(TargetCheck::Missing).err(), Some(ConfigError::InvalidPath));
    assert_eq!(raw("string", "").validate(TargetCheck::NotAFile).err(), Some(ConfigError::NotABinary));
    assert_eq!(raw("bogus", "").validate(TargetCheck::File).err(), Some(ConfigError::InvalidFuzzType));
    assert_eq!(ConfigError::InvalidFuzzType.message(), "invalid fuzz type");
}

#[test]
fn validation_builds_config() {
    let c = raw("Txt", "-a -b").validate(TargetCheck::File).ok().unwrap();
    assert_eq!(c.validated_fuzz_type, FuzzType::Txt);
    assert_eq!(c.bin_args, vec!["-a".to_string(), "-b".to_string()]);
    assert_eq!(c.iterations, 10);
    assert_eq!(c.crash_stats.total, 0);
    let c = raw("string", "").validate(TargetCheck::File).ok().unwrap();
    assert!(c.bin_args.is_empty());
    assert_eq!(split_target_args("x"), vec!["x".to_string()]);
}

#[test]
fn empty_corpus_is_refused_before_the_loop() {
    assert_eq!(require_seeds(0), Err(EngineError::EmptyCorpus));
    assert_eq!(require_seeds(3), Ok(()));
}

#[test]
fn empty_models_log_nothing() {
    let mut rng = SmallRng::seed_from_u64(2);
    let mut t = Txt::parse(&[]);
    assert_eq!(Txt::mutate(&mut rng, &mut t), "");
    let mut b = FuzzString::parse(&[]);
    assert_eq!(FuzzString::mutate(&mut rng, &mut b), "");
    let mut j = Jpeg::parse(&[]);
    assert_eq!(Jpeg::mutate(&mut rng, &mut j), "");
}
