//! A leaf node reading a past value back out of a delay line, clamped to
//! the unit signal interval.

use vstd::prelude::*;
use vstd::string::StringExecFns;
use crate::delay_line::DelayLine;
use crate::digits::{append_dec, dec_digits};
use crate::fx::{FX_SCALE, clamp_unit, clamp_unit_spec};

verus! {

/// The symbolic rendering of a feedback node reaching `i` steps back.
pub open spec fn feedback_symbol_spec(i: int) -> Seq<char> {
    "delay["@ + dec_digits(i) + "]"@
}

/// A feedback codon reading the value pushed `i` pushes ago.
pub struct Feedback {
    pub i: usize,
    pub symbol: String,
}

impl Feedback {
    pub fn new(i: usize) -> (r: Self)
        ensures
            r.i == i,
            r.symbol@ == feedback_symbol_spec(i as int),
    {
        let mut symbol = String::from_str("delay[");
        append_dec(&mut symbol, i);
        symbol.append("]");
        proof {
            assert(symbol@ =~= feedback_symbol_spec(i as int));
        }
        Feedback { i, symbol }
    }

    /// Read this node's slot of the delay line, clamped to `[-1, +1]`.
    pub fn eval(&self, delay_line: &DelayLine) -> (r: i64)
        requires
            delay_line.wf(),
            self.i < usize::MAX,
        ensures
            r == clamp_unit_spec(delay_line.buff@[delay_line.back_index(self.i as int)] as int),
            -(FX_SCALE as int) <= r <= FX_SCALE as int,
    {
        clamp_unit(delay_line.get_shifted_back(self.i))
    }
}

} // verus!
