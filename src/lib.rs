//! Core of a blackbox mutational fuzzer: byte-level mutation primitives,
//! format plug-ins (argv blob, text, JPEG, PNG), crash classification and
//! the per-iteration decisions of the fuzz loop.

pub mod rng;
pub mod text;
pub mod mutate;
pub mod format;
pub mod fuzz_string;
pub mod txt;
pub mod jpeg;
pub mod jpeg_mutation;
pub mod jpeg_corpus;
pub mod errors;
pub mod types;
pub mod analysis;
pub mod report;
pub mod target;
pub mod config;
pub mod engine;
pub mod jpeg_object;
pub mod jpeg_round_trip;
pub mod png;
pub mod png_model;
pub mod png_mutations;
pub mod png_round_trip;
