//! Leaf nodes: a terminal references one position of the input feature
//! vector and clamps the feature into the unit signal interval.

use vstd::prelude::*;
use vstd::string::StringExecFns;
use crate::digits::{append_dec, dec_digits};
use crate::fx::{FX_SCALE, clamp_unit, clamp_unit_spec};

verus! {

/// The symbolic rendering of a terminal referencing feature `i`.
pub open spec fn term_symbol_spec(i: int) -> Seq<char> {
    "args["@ + dec_digits(i) + "]"@
}

/// A terminal codon referencing feature `i` of the input row.
pub struct Terminal {
    pub i: usize,
    pub symbol: String,
}

impl Terminal {
    pub fn new(i: usize) -> (r: Self)
        ensures
            r.i == i,
            r.symbol@ == term_symbol_spec(i as int),
    {
        let mut symbol = String::from_str("args[");
        append_dec(&mut symbol, i);
        symbol.append("]");
        proof {
            assert(symbol@ =~= term_symbol_spec(i as int));
        }
        Terminal { i, symbol }
    }

    /// Look the referenced feature up and clamp it to `[-1, +1]`.
    pub fn eval(&self, args: &Vec<i64>) -> (r: i64)
        requires
            self.i < args@.len(),
        ensures
            r == clamp_unit_spec(args@[self.i as int] as int),
            -(FX_SCALE as int) <= r <= FX_SCALE as int,
    {
        clamp_unit(args[self.i])
    }
}

} // verus!
