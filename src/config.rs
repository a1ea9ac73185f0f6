//! Validation of the raw command-line settings into a run configuration.

use crate::target::{lemma_split_nonempty, split_on, strings_view};
use crate::types::{Config, CrashStats, FuzzType};
use vstd::prelude::*;
use vstd::string::{StrSliceExecFns, StringExecFns};

verus! {

/// The settings as given on the command line.
pub struct RawConfig {
    pub bin_path: String,
    pub fuzz_type: String,
    pub max_iterations: usize,
    pub timeout: u64,
    pub report_path: String,
    pub seed: Option<u64>,
    pub bin_args: String,
}

/// What the filesystem says of the target path.
#[derive(Clone, Copy, Debug, PartialEq, Eq, Structural)]
pub enum TargetCheck {
    Missing,
    NotAFile,
    File,
}

/// Why the settings were rejected.
#[derive(Clone, Copy, Debug, PartialEq, Eq, Structural)]
pub enum ConfigError {
    InvalidPath,
    NotABinary,
    InvalidFuzzType,
}

impl ConfigError {
    /// A line for the user.
    pub fn message(&self) -> (r: &'static str) {
        match self {
            ConfigError::InvalidPath => "invalid binary path, double check the path exists",
            ConfigError::NotABinary => "path does not correspond to a binary",
            ConfigError::InvalidFuzzType => "invalid fuzz type",
        }
    }
}

/// What `str::to_lowercase` makes of a text.
pub uninterp spec fn lowercase_of(s: Seq<char>) -> Seq<char>;

/// Relies on `str::to_lowercase`: the Unicode lowercase of the text, which
/// depends on the text alone.
#[verifier::external_body]
fn to_lowercase(s: &str) -> (r: String)
    ensures
        r@ == lowercase_of(s@),
{
    s.to_lowercase()
}

/// The fuzz type a lowercase name selects.
pub open spec fn fuzz_type_named(s: Seq<char>) -> Option<FuzzType> {
    if s == "string"@ {
        Some(FuzzType::String)
    } else if s == "txt"@ {
        Some(FuzzType::Txt)
    } else if s == "signedint"@ || s == "int"@ {
        Some(FuzzType::SignedInt)
    } else if s == "unsignedint"@ || s == "uint"@ {
        Some(FuzzType::UnsignedInt)
    } else if s == "jpeg"@ || s == "jpg"@ {
        Some(FuzzType::Jpeg)
    } else if s == "png"@ {
        Some(FuzzType::Png)
    } else if s == "pdf"@ {
        Some(FuzzType::Pdf)
    } else {
        None
    }
}

/// The target arguments of the trailing text: none when it is empty,
/// otherwise its pieces between spaces.
pub open spec fn target_args_of(s: Seq<char>) -> Seq<Seq<char>> {
    if s.len() == 0 {
        Seq::empty()
    } else {
        split_on(s, ' ')
    }
}

/// Whether two texts are equal.
pub fn str_equal(a: &str, b: &str) -> (r: bool)
    ensures
        r == (a@ == b@),
{
    let n = a.unicode_len();
    if n != b.unicode_len() {
        return false;
    }
    let mut i: usize = 0;
    while i < n
        invariant
            i <= n == a@.len() == b@.len(),
            a@.subrange(0, i as int) == b@.subrange(0, i as int),
        decreases n - i,
    {
        if a.get_char(i) != b.get_char(i) {
            return false;
        }
        assert(a@.subrange(0, i + 1) =~= a@.subrange(0, i as int).push(a@[i as int]));
        assert(b@.subrange(0, i + 1) =~= b@.subrange(0, i as int).push(b@[i as int]));
        i = i + 1;
    }
    assert(a@ =~= a@.subrange(0, n as int));
    assert(b@ =~= b@.subrange(0, n as int));
    true
}

/// The fuzz type a lowercase name selects.
pub fn fuzz_type_from_lowercase(s: &str) -> (r: Option<FuzzType>)
    ensures
        r == fuzz_type_named(s@),
{
    if str_equal(s, "string") {
        Some(FuzzType::String)
    } else if str_equal(s, "txt") {
        Some(FuzzType::Txt)
    } else if str_equal(s, "signedint") || str_equal(s, "int") {
        Some(FuzzType::SignedInt)
    } else if str_equal(s, "unsignedint") || str_equal(s, "uint") {
        Some(FuzzType::UnsignedInt)
    } else if str_equal(s, "jpeg") || str_equal(s, "jpg") {
        Some(FuzzType::Jpeg)
    } else if str_equal(s, "png") {
        Some(FuzzType::Png)
    } else if str_equal(s, "pdf") {
        Some(FuzzType::Pdf)
    } else {
        None
    }
}

/// The fuzz type a name selects, ignoring case.
pub fn parse_fuzz_type(s: &str) -> (r: Option<FuzzType>)
    ensures
        r == fuzz_type_named(lowercase_of(s@)),
{
    let lower = to_lowercase(s);
    fuzz_type_from_lowercase(lower.as_str())
}

/// Splits the trailing text into target arguments.
pub fn split_target_args(s: &str) -> (r: Vec<String>)
    ensures
        strings_view(r@) == target_args_of(s@),
{
    let n = s.unicode_len();
    let mut args: Vec<String> = Vec::new();
    if n == 0 {
        assert(strings_view(args@) =~= Seq::<Seq<char>>::empty());
        return args;
    }
    let mut start: usize = 0;
    let mut i: usize = 0;
    assert(s@.subrange(0, 0) =~= Seq::<char>::empty());
    assert(strings_view(args@).push(s@.subrange(0, 0)) =~= split_on(s@.subrange(0, 0), ' '));
    while i < n
        invariant
            start <= i <= n == s@.len(),
            strings_view(args@).push(s@.subrange(start as int, i as int)) == split_on(
                s@.subrange(0, i as int),
                ' ',
            ),
        decreases n - i,
    {
        let ghost prefix = s@.subrange(0, i + 1);
        proof {
            assert(prefix.drop_last() =~= s@.subrange(0, i as int));
            lemma_split_nonempty(prefix.drop_last(), ' ');
        }
        assert(prefix.last() == s@[i as int]);
        if s.get_char(i) == ' ' {
            let ghost before = strings_view(args@);
            let ghost old_start = start;
            let piece = String::from_str(s.substring_char(start, i));
            args.push(piece);
            start = i + 1;
            assert(s@.subrange(start as int, i + 1) =~= Seq::<char>::empty());
            assert(strings_view(args@) =~= before.push(s@.subrange(old_start as int, i as int)));
            assert(strings_view(args@).push(s@.subrange(start as int, i + 1)) =~= split_on(
                prefix,
                ' ',
            ));
        } else {
            assert(s@.subrange(start as int, i + 1) =~= s@.subrange(start as int, i as int).push(
                s@[i as int],
            ));
            assert(strings_view(args@).push(s@.subrange(start as int, i + 1)) =~= split_on(
                prefix,
                ' ',
            ));
        }
        i = i + 1;
    }
    let ghost before = strings_view(args@);
    args.push(String::from_str(s.substring_char(start, n)));
    assert(strings_view(args@) =~= before.push(s@.subrange(start as int, n as int)));
    assert(s@.subrange(0, n as int) =~= s@);
    args
}

impl RawConfig {
    /// Validates the settings, given what the filesystem says of the target
    /// path: the path must name a regular file and the fuzz type a known
    /// kind, in that order.
    pub fn validate(&self, target: TargetCheck) -> (r: Result<Config, ConfigError>)
        ensures
            target == TargetCheck::Missing ==> r == Err::<Config, ConfigError>(
                ConfigError::InvalidPath,
            ),
            target == TargetCheck::NotAFile ==> r == Err::<Config, ConfigError>(
                ConfigError::NotABinary,
            ),
            target == TargetCheck::File && fuzz_type_named(lowercase_of(self.fuzz_type@)) is None
                ==> r == Err::<Config, ConfigError>(ConfigError::InvalidFuzzType),
            target == TargetCheck::File && fuzz_type_named(lowercase_of(self.fuzz_type@)) is Some
                ==> (r matches Ok(c) && c.validated_fuzz_type == fuzz_type_named(
                lowercase_of(self.fuzz_type@),
            )->Some_0 && strings_view(c.bin_args@) == target_args_of(self.bin_args@)
                && c.bin_path@ == self.bin_path@ && c.report_path@ == self.report_path@
                && c.iterations == self.max_iterations && c.timeout == self.timeout && c.seed
                == self.seed && c.crash_stats == CrashStats::new_spec()),
    {
        match target {
            TargetCheck::Missing => {
                return Err(ConfigError::InvalidPath);
            },
            TargetCheck::NotAFile => {
                return Err(ConfigError::NotABinary);
            },
            TargetCheck::File => {},
        }
        let validated_fuzz_type = match parse_fuzz_type(self.fuzz_type.as_str()) {
            Some(t) => t,
            None => {
                return Err(ConfigError::InvalidFuzzType);
            },
        };
        Ok(
            Config {
                bin_args: split_target_args(self.bin_args.as_str()),
                bin_path: self.bin_path.clone(),
                crash_stats: CrashStats::new(),
                iterations: self.max_iterations,
                report_path: self.report_path.clone(),
                timeout: self.timeout,
                validated_fuzz_type,
                seed: self.seed,
            },
        )
    }
}

} // verus!
