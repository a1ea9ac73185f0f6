//! The contract every fuzzable format implements: parse bytes into a model,
//! mutate the model, generate bytes back, and synthesise a seed corpus.

use rand::rngs::SmallRng;
use vstd::prelude::*;
use vstd::utf8::encode_utf8;

verus! {

/// One seed of an initial corpus: the bytes of the file name it is stored
/// under, and its contents.
pub struct CorpusFile {
    pub name: Vec<u8>,
    pub contents: Vec<u8>,
}

/// The UTF-8 bytes of a text, for use as a file name.
pub fn name_bytes(s: &str) -> (r: Vec<u8>)
    ensures
        r@ == encode_utf8(s@),
{
    vstd::slice::slice_to_vec(s.as_bytes())
}

/// Why a seed corpus could not be built.
#[derive(Clone, Copy, Debug, PartialEq, Eq, Structural)]
pub enum CorpusError {
    /// An image encoder refused the pixel data it was given.
    Encoding,
}

pub trait FileFormat {
    type Model;

    /// Whether `model` is what `parse` yields for `input`.
    spec fn parses_to(input: Seq<u8>, model: Self::Model) -> bool;

    /// The bytes that `generate` yields for `model`.
    spec fn generate_spec(model: Self::Model) -> Seq<u8>;

    /// Whether a single call of `mutate` may turn `before` into `after`.
    spec fn mutation_step(before: Self::Model, after: Self::Model) -> bool;

    /// Whether `text` is the log line of a mutation that turned `before`
    /// into `after`; an empty model gets an empty line.
    spec fn describes(before: Self::Model, after: Self::Model, text: Seq<char>) -> bool;

    /// A model with nothing to mutate.
    spec fn empty_model(model: Self::Model) -> bool;

    /// The file extension of the format.
    spec fn ext_spec() -> Seq<char>;

    /// What the seed corpus of the format holds.
    spec fn corpus_spec(r: Result<Vec<CorpusFile>, CorpusError>) -> bool;

    /// File extension without the dot; empty for argv-style input.
    fn ext() -> (r: &'static str)
        ensures
            r@ == Self::ext_spec(),
    ;

    /// Parses arbitrary bytes; malformed input yields a degraded model.
    fn parse(input: &[u8]) -> (r: Self::Model)
        ensures
            Self::parses_to(input@, r),
    ;

    /// Serialises a model.
    fn generate(model: Self::Model) -> (r: Vec<u8>)
        ensures
            r@ == Self::generate_spec(model),
    ;

    /// Applies one randomly chosen mutation and describes it.
    fn mutate(rng: &mut SmallRng, model: &mut Self::Model) -> (r: String)
        ensures
            Self::mutation_step(*old(model), *final(model)),
            Self::describes(*old(model), *final(model), r@),
            Self::empty_model(*old(model)) ==> *final(rng) == *old(rng),
    ;

    /// Synthesises the initial seed corpus from the random source.
    fn generate_corpus(rng: &mut SmallRng) -> (r: Result<Vec<CorpusFile>, CorpusError>)
        ensures
            Self::corpus_spec(r),
    ;

    /// An empty seed parses to a model that generates no bytes, and mutation
    /// leaves that model as it is.
    proof fn lemma_empty_seed(model: Self::Model, mutated: Self::Model)
        requires
            Self::parses_to(Seq::empty(), model),
        ensures
            Self::generate_spec(model) == Seq::<u8>::empty(),
            Self::mutation_step(model, mutated) ==> Self::parses_to(Seq::empty(), mutated),
    ;
}

} // verus!
