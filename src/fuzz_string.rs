//! The argv blob format: the model is a byte string that the loop splits on
//! spaces into extra command-line arguments.

use crate::format::{name_bytes, CorpusError, CorpusFile, FileFormat};
use crate::mutate::{byte_mutation, byte_mutation_described, edit_fits, edit_region, mutate_bytes, ByteEdit};
use rand::rngs::SmallRng;
use vstd::prelude::*;
use vstd::utf8::encode_utf8;
use vstd::string::StringExecFns;

verus! {

pub struct FuzzString;

pub struct FuzzStringModel {
    pub filename: Vec<u8>,
}

/// The number of curated seeds of the blob corpus.
pub const BLOB_SEED_COUNT: usize = 8;

/// The bytes of the `i`-th curated seed name.
pub open spec fn blob_seed_name(i: int) -> Seq<u8> {
    if i == 0 {
        encode_utf8("My name is Cole."@)
    } else if i == 1 {
        Seq::empty()
    } else if i == 2 {
        seq![0x0Au8]
    } else if i == 3 {
        encode_utf8("\0hello"@)
    } else if i == 4 {
        seq![0x27u8]
    } else if i == 5 {
        encode_utf8(repeated("My name is Cole"@, 10))
    } else if i == 6 {
        seq![0xFFu8, 0xFFu8]
    } else {
        seq![0x00u8, 0x00u8, 0x00u8]
    }
}

/// `s` written `n` times in a row.
pub open spec fn repeated(s: Seq<char>, n: nat) -> Seq<char>
    decreases n,
{
    if n == 0 {
        Seq::empty()
    } else {
        repeated(s, (n - 1) as nat) + s
    }
}

fn repeat_str(s: &str, n: usize) -> (r: String)
    ensures
        r@ == repeated(s@, n as nat),
{
    let mut out = String::new();
    let mut k: usize = 0;
    while k < n
        invariant
            k <= n,
            out@ == repeated(s@, k as nat),
        decreases n - k,
    {
        out.append(s);
        k = k + 1;
    }
    out
}

/// The curated seed names, as bytes, in order.
pub fn basic_corpus() -> (r: Vec<Vec<u8>>)
    ensures
        r.len() == BLOB_SEED_COUNT,
        forall|i: int| 0 <= i < r.len() ==> #[trigger] r[i]@ == blob_seed_name(i),
{
    let mut v: Vec<Vec<u8>> = Vec::new();
    v.push(name_bytes("My name is Cole."));
    v.push(Vec::new());
    v.push(vec![0x0Au8]);
    v.push(name_bytes("\0hello"));
    v.push(vec![0x27u8]);
    let long = repeat_str("My name is Cole", 10);
    v.push(name_bytes(long.as_str()));
    v.push(vec![0xFFu8, 0xFFu8]);
    v.push(vec![0x00u8, 0x00u8, 0x00u8]);
    assert(v[2]@ =~= seq![0x0Au8]);
    assert(v[4]@ =~= seq![0x27u8]);
    assert(v[6]@ =~= seq![0xFFu8, 0xFFu8]);
    assert(v[7]@ =~= seq![0x00u8, 0x00u8, 0x00u8]);
    assert(v[1]@ =~= Seq::<u8>::empty());
    v
}

/// The curated blob seeds: each is stored under a file name made of its
/// bytes, with a one-byte body of `0x12`.
pub fn blob_corpus() -> (r: Vec<CorpusFile>)
    ensures
        r.len() == BLOB_SEED_COUNT,
        forall|i: int|
            0 <= i < r.len() ==> #[trigger] r[i].name@ == blob_seed_name(i) && r[i].contents@
                == seq![0x12u8],
{
    let names = basic_corpus();
    let mut files: Vec<CorpusFile> = Vec::new();
    let mut k: usize = 0;
    while k < names.len()
        invariant
            k <= names.len() == BLOB_SEED_COUNT,
            forall|i: int| 0 <= i < names.len() ==> #[trigger] names[i]@ == blob_seed_name(i),
            files.len() == k,
            forall|i: int|
                0 <= i < k ==> #[trigger] files[i].name@ == blob_seed_name(i) && files[i].contents@
                    == seq![0x12u8],
        decreases names.len() - k,
    {
        files.push(CorpusFile { name: crate::jpeg::copy_bytes(&names[k]), contents: vec![0x12u8] });
        k = k + 1;
    }
    files
}

impl FileFormat for FuzzString {
    type Model = FuzzStringModel;

    open spec fn parses_to(input: Seq<u8>, model: FuzzStringModel) -> bool {
        model.filename@ == input
    }

    open spec fn generate_spec(model: FuzzStringModel) -> Seq<u8> {
        model.filename@
    }

    open spec fn mutation_step(before: FuzzStringModel, after: FuzzStringModel) -> bool {
        byte_mutation(before.filename@, after.filename@)
    }

    open spec fn describes(before: FuzzStringModel, after: FuzzStringModel, text: Seq<char>) -> bool {
        byte_mutation_described(before.filename@, after.filename@, text)
    }

    open spec fn empty_model(model: FuzzStringModel) -> bool {
        model.filename@.len() == 0
    }

    open spec fn ext_spec() -> Seq<char> {
        ""@
    }

    open spec fn corpus_spec(r: Result<Vec<CorpusFile>, CorpusError>) -> bool {
        r is Ok && r->Ok_0@.len() == BLOB_SEED_COUNT && forall|i: int|
            0 <= i < BLOB_SEED_COUNT ==> #[trigger] r->Ok_0@[i].name@ == blob_seed_name(i)
                && r->Ok_0@[i].contents@ == seq![0x12u8]
    }

    fn ext() -> (r: &'static str) {
        ""
    }

    fn parse(input: &[u8]) -> (r: FuzzStringModel) {
        FuzzStringModel { filename: vstd::slice::slice_to_vec(input) }
    }

    fn generate(model: FuzzStringModel) -> (r: Vec<u8>) {
        model.filename
    }

    fn mutate(rng: &mut SmallRng, model: &mut FuzzStringModel) -> (r: String) {
        mutate_bytes(rng, &mut model.filename)
    }

    fn generate_corpus(rng: &mut SmallRng) -> (r: Result<Vec<CorpusFile>, CorpusError>) {
        Ok(blob_corpus())
    }

    proof fn lemma_empty_seed(model: Self::Model, mutated: Self::Model) {
        if Self::mutation_step(model, mutated) {
            let e = choose|e: ByteEdit|
                edit_fits(e, model.filename@.len()) && mutated.filename@ == edit_region(model.filename@, 0, e);
            assert(mutated.filename@ == model.filename@);
        }
    }
}

/// A parsed blob generates exactly its input, so parsing that again gives
/// the same model.
pub proof fn lemma_blob_round_trip(b: Seq<u8>, first: FuzzStringModel, second: FuzzStringModel)
    requires
        FuzzString::parses_to(b, first),
        FuzzString::parses_to(FuzzString::generate_spec(first), second),
    ensures
        FuzzString::generate_spec(first) == b,
        second.filename@ == first.filename@,
{
}

} // verus!
