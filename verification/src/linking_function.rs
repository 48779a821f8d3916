//! The fixed rule combining the genes' outputs into one chromosome-level
//! signal: the sign of their sum, a majority-style consensus.

use vstd::prelude::*;
use crate::fx::{FX_SCALE, sign_unit_spec};

verus! {

/// Sum of the first `n` entries of a signal sequence.
pub open spec fn sum_prefix(s: Seq<i64>, n: int) -> int
    decreases n,
{
    if n <= 0 {
        0
    } else {
        sum_prefix(s, n - 1) + s[n - 1]
    }
}

/// The linking function: sign of the sum of the per-gene outputs.
pub struct LinkingFunction {
    pub symbol: &'static str,
}

impl LinkingFunction {
    pub fn new() -> (r: Self)
        ensures
            r.symbol@ == "Maj"@,
    {
        LinkingFunction { symbol: "Maj" }
    }

    /// Combine unit signals into their consensus: a whole signal unit
    /// carrying the sign of the sum (ties resolve to 0).
    pub fn evaluate(&self, args: Vec<i64>) -> (r: i64)
        requires
            forall|i: int|
                0 <= i < args@.len() ==> -(FX_SCALE as int) <= #[trigger] args@[i] <= FX_SCALE
                    as int,
        ensures
            r == sign_unit_spec(sum_prefix(args@, args@.len() as int)),
            r == FX_SCALE || r == 0 || r == -(FX_SCALE as int),
    {
        let n = args.len();
        let mut total: i128 = 0;
        let mut i: usize = 0;
        while i < n
            invariant
                i <= n,
                n == args@.len(),
                forall|j: int|
                    0 <= j < n ==> -(FX_SCALE as int) <= #[trigger] args@[j] <= FX_SCALE as int,
                total as int == sum_prefix(args@, i as int),
                -(i as int) * (FX_SCALE as int) <= total as int <= (i as int) * (FX_SCALE as int),
            decreases n - i,
        {
            total = total + args[i] as i128;
            i = i + 1;
        }
        if total > 0 {
            FX_SCALE
        } else if total < 0 {
            -FX_SCALE
        } else {
            0
        }
    }
}

} // verus!
