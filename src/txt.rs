//! The plain-text format: the model is the raw bytes of a file.

use crate::format::{name_bytes, CorpusError, CorpusFile, FileFormat};
use crate::mutate::{byte_mutation, byte_mutation_described, edit_fits, edit_region, mutate_bytes, ByteEdit};
use crate::rng::{random_below, random_byte};
use crate::text::{decimal, push_decimal};
use rand::rngs::SmallRng;
use vstd::prelude::*;
use vstd::utf8::encode_utf8;
use vstd::string::StringExecFns;

verus! {

pub struct Txt;

pub struct TxtModel {
    pub bytes: Vec<u8>,
}

/// The number of files in the text corpus.
pub const TXT_CORPUS_SIZE: usize = 20;

/// Exclusive bound on the length of a text seed.
pub const TXT_MAX_SEED_LEN: usize = 1000;

/// Builds a seed of random length below `TXT_MAX_SEED_LEN` with random bytes.
fn random_payload(rng: &mut SmallRng) -> (r: Vec<u8>)
    ensures
        r.len() < TXT_MAX_SEED_LEN,
{
    let length = random_below(rng, TXT_MAX_SEED_LEN);
    let mut content: Vec<u8> = Vec::new();
    let mut k: usize = 0;
    while k < length
        invariant
            k <= length < TXT_MAX_SEED_LEN,
            content.len() == k,
        decreases length - k,
    {
        content.push(random_byte(rng));
        k = k + 1;
    }
    content
}

/// Twenty seeds named `0.txt` to `19.txt`, each with a random payload of
/// fewer than a thousand bytes.
pub fn generate_txt_corpus(rng: &mut SmallRng) -> (r: Vec<CorpusFile>)
    ensures
        r.len() == TXT_CORPUS_SIZE,
        forall|i: int|
            0 <= i < r.len() ==> #[trigger] r[i].name@ == encode_utf8(decimal(i as nat) + ".txt"@)
                && r[i].contents.len() < TXT_MAX_SEED_LEN,
{
    let mut files: Vec<CorpusFile> = Vec::new();
    let mut i: usize = 0;
    while i < TXT_CORPUS_SIZE
        invariant
            i <= TXT_CORPUS_SIZE,
            files.len() == i,
            forall|j: int|
                0 <= j < i ==> #[trigger] files[j].name@ == encode_utf8(decimal(j as nat) + ".txt"@)
                    && files[j].contents.len() < TXT_MAX_SEED_LEN,
        decreases TXT_CORPUS_SIZE - i,
    {
        let contents = random_payload(rng);
        let mut name = String::new();
        push_decimal(&mut name, i as u64);
        name.append(".txt");
        assert(name@ =~= decimal(i as nat) + ".txt"@);
        files.push(CorpusFile { name: name_bytes(name.as_str()), contents });
        i = i + 1;
    }
    files
}

impl FileFormat for Txt {
    type Model = TxtModel;

    open spec fn parses_to(input: Seq<u8>, model: TxtModel) -> bool {
        model.bytes@ == input
    }

    open spec fn generate_spec(model: TxtModel) -> Seq<u8> {
        model.bytes@
    }

    open spec fn mutation_step(before: TxtModel, after: TxtModel) -> bool {
        byte_mutation(before.bytes@, after.bytes@)
    }

    open spec fn describes(before: TxtModel, after: TxtModel, text: Seq<char>) -> bool {
        byte_mutation_described(before.bytes@, after.bytes@, text)
    }

    open spec fn empty_model(model: TxtModel) -> bool {
        model.bytes@.len() == 0
    }

    open spec fn ext_spec() -> Seq<char> {
        "txt"@
    }

    open spec fn corpus_spec(r: Result<Vec<CorpusFile>, CorpusError>) -> bool {
        r is Ok && r->Ok_0@.len() == TXT_CORPUS_SIZE && forall|i: int|
            0 <= i < TXT_CORPUS_SIZE ==> #[trigger] r->Ok_0@[i].name@ == encode_utf8(
                decimal(i as nat) + ".txt"@,
            ) && r->Ok_0@[i].contents@.len() < TXT_MAX_SEED_LEN
    }

    fn ext() -> (r: &'static str) {
        "txt"
    }

    fn parse(input: &[u8]) -> (r: TxtModel) {
        TxtModel { bytes: vstd::slice::slice_to_vec(input) }
    }

    fn generate(model: TxtModel) -> (r: Vec<u8>) {
        model.bytes
    }

    fn mutate(rng: &mut SmallRng, model: &mut TxtModel) -> (r: String) {
        mutate_bytes(rng, &mut model.bytes)
    }

    fn generate_corpus(rng: &mut SmallRng) -> (r: Result<Vec<CorpusFile>, CorpusError>) {
        let files = generate_txt_corpus(rng);
        assert forall|i: int| 0 <= i < TXT_CORPUS_SIZE implies #[trigger] files@[i].name@ == encode_utf8(
            decimal(i as nat) + ".txt"@,
        ) && files@[i].contents@.len() < TXT_MAX_SEED_LEN by {
            assert(files[i].name@ == encode_utf8(decimal(i as nat) + ".txt"@));
        }
        Ok(files)
    }

    proof fn lemma_empty_seed(model: Self::Model, mutated: Self::Model) {
        if Self::mutation_step(model, mutated) {
            let e = choose|e: ByteEdit|
                edit_fits(e, model.bytes@.len()) && mutated.bytes@ == edit_region(model.bytes@, 0, e);
            assert(mutated.bytes@ == model.bytes@);
        }
    }
}

/// A parsed text generates exactly its input, so parsing that again gives
/// the same model.
pub proof fn lemma_text_round_trip(b: Seq<u8>, first: TxtModel, second: TxtModel)
    requires
        Txt::parses_to(b, first),
        Txt::parses_to(Txt::generate_spec(first), second),
    ensures
        Txt::generate_spec(first) == b,
        second.bytes@ == first.bytes@,
{
}

} // verus!
