//! A gene-expression-programming library: fixed-length codon genomes are
//! decoded into expression trees over a numeric feature vector, scored
//! against a labelled dataset, and evolved by structure-preserving genetic
//! operators under fitness-proportionate selection.
//!
//! All signal arithmetic is done in a fixed-point scale (see [`fx`]), so that
//! every numeric step of translation, evaluation and selection carries an
//! exact contract.

pub mod chromosome;
pub mod codons;
pub mod config;
pub mod data_table;
pub mod delay_line;
pub mod digits;
pub mod feedback;
pub mod fx;
pub mod fitness_evaluator;
pub mod functions;
pub mod linking_function;
pub mod population;
pub mod rng;
pub mod state_functions;
pub mod statistics;
pub mod terminal;
