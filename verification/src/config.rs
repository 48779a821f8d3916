//! The run parameters a driver hands to the library, with probabilities
//! and the train fraction in the fixed-point scale.

use vstd::prelude::*;

verus! {

/// Parameters of one evolutionary run.
pub struct Config {
    pub inputs_cnt: usize,
    pub population_size: usize,
    pub nbr_of_genes: usize,
    pub head_length: usize,
    pub transposition_probability: i64,
    pub mutation_probability: i64,
    pub passes: usize,
    pub train_fraction: i64,
    pub data_path: String,
}

} // verus!
