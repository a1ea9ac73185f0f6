//! The decisions of one fuzz-loop iteration, generic over the format: which
//! seed to take, how many mutations to chain, and the bytes to hand over.

use crate::format::FileFormat;
use crate::rng::random_below;
use crate::text::{decimal, push_decimal};
use rand::rngs::SmallRng;
use vstd::prelude::*;
use vstd::string::StringExecFns;

verus! {

/// Exclusive bound on the number of mutations chained in one iteration.
pub const MAX_CHAIN: usize = 5;

/// Why the loop cannot start.
#[derive(Clone, Copy, Debug, PartialEq, Eq, Structural)]
pub enum EngineError {
    /// The seed corpus holds no entry.
    EmptyCorpus,
}

/// Whether `end` is reached from `start` by exactly `steps` mutations.
pub open spec fn mutated_within<F: FileFormat>(start: F::Model, end: F::Model, steps: nat) -> bool
    decreases steps,
{
    if steps == 0 {
        end == start
    } else {
        exists|mid: F::Model|
            mutated_within::<F>(start, mid, (steps - 1) as nat) && F::mutation_step(mid, end)
    }
}

/// Checks the corpus before the loop starts: an empty corpus is fatal.
pub fn require_seeds(corpus_len: usize) -> (r: Result<(), EngineError>)
    ensures
        corpus_len == 0 <==> r == Err::<(), EngineError>(EngineError::EmptyCorpus),
        corpus_len > 0 <==> r is Ok,
{
    if corpus_len == 0 {
        Err(EngineError::EmptyCorpus)
    } else {
        Ok(())
    }
}

/// Picks the corpus entry of an iteration, uniformly; an empty corpus is
/// fatal.
pub fn choose_seed(rng: &mut SmallRng, corpus_len: usize) -> (r: Result<usize, EngineError>)
    ensures
        corpus_len == 0 <==> r == Err::<usize, EngineError>(EngineError::EmptyCorpus),
        r matches Ok(i) ==> i < corpus_len,
{
    if corpus_len == 0 {
        Err(EngineError::EmptyCorpus)
    } else {
        Ok(random_below(rng, corpus_len))
    }
}

/// Parses a seed, applies a chain of fewer than five random mutations, and
/// generates the bytes of the result; returns them with the chain's log.
pub fn mutate_seed<F: FileFormat>(rng: &mut SmallRng, seed: &[u8]) -> (r: (Vec<u8>, Vec<String>))
    ensures
        r.1@.len() < MAX_CHAIN,
        exists|m0: F::Model, m: F::Model|
            #![trigger F::parses_to(seed@, m0), F::generate_spec(m)]
            F::parses_to(seed@, m0) && mutated_within::<F>(m0, m, r.1@.len() as nat) && r.0@
                == F::generate_spec(m),
        seed@.len() == 0 ==> r.0@.len() == 0,
{
    let count = random_below(rng, MAX_CHAIN);
    let mut model = F::parse(seed);
    let ghost m0 = model;
    let mut log: Vec<String> = Vec::new();
    let mut k: usize = 0;
    proof {
        if seed@.len() == 0 {
            assert(seed@ =~= Seq::<u8>::empty());
        }
    }
    while k < count
        invariant
            k <= count < MAX_CHAIN,
            log@.len() == k,
            F::parses_to(seed@, m0),
            mutated_within::<F>(m0, model, k as nat),
            seed@.len() == 0 ==> F::parses_to(Seq::empty(), model),
        decreases count - k,
    {
        let ghost prev = model;
        let d = F::mutate(rng, &mut model);
        proof {
            assert(mutated_within::<F>(m0, prev, k as nat) && F::mutation_step(prev, model));
            assert(mutated_within::<F>(m0, model, (k + 1) as nat));
            if seed@.len() == 0 {
                assert(seed@ =~= Seq::<u8>::empty());
                F::lemma_empty_seed(prev, model);
            }
        }
        log.push(d);
        k = k + 1;
    }
    proof {
        if seed@.len() == 0 {
            F::lemma_empty_seed(model, model);
        }
    }
    let ghost last = model;
    let bytes = F::generate(model);
    assert(F::parses_to(seed@, m0) && mutated_within::<F>(m0, last, log@.len() as nat) && bytes@
        == F::generate_spec(last));
    (bytes, log)
}

/// The name under which the mutated input of iteration `i` is written.
pub fn mutated_file_name(i: u64, ext: &str) -> (r: String)
    ensures
        r@ == decimal(i as nat) + "."@ + ext@,
{
    let mut s = String::new();
    push_decimal(&mut s, i);
    s.append(".");
    s.append(ext);
    assert(s@ =~= decimal(i as nat) + "."@ + ext@);
    s
}

} // verus!
