//! The immutable labelled dataset: rows of feature vectors with one target
//! return each.

use vstd::prelude::*;
use crate::fx::FX_MAX_ABS;

verus! {

/// A dataset accepted for evaluation: no ragged or empty shape, and every
/// target return within the fixed-point magnitude limit.
pub open spec fn table_valid(a: Seq<Seq<i64>>, r: Seq<i64>) -> bool {
    &&& a.len() >= 1
    &&& a[0].len() >= 1
    &&& a.len() == r.len()
    &&& forall|i: int| 0 <= i < a.len() ==> (#[trigger] a[i]).len() == a[0].len()
    &&& forall|i: int|
        0 <= i < r.len() ==> -(FX_MAX_ABS as int) <= #[trigger] r[i] <= FX_MAX_ABS as int
}

/// The rows of a feature matrix, as a sequence of sequences.
pub open spec fn rows_of(a: Seq<Vec<i64>>) -> Seq<Seq<i64>> {
    a.map(|i: int, v: Vec<i64>| v@)
}

/// A labelled dataset: `rows` feature vectors of `cols` features each, and
/// one target return per row.
pub struct DataTable {
    pub args: Vec<Vec<i64>>,
    pub results: Vec<i64>,
    pub rows: usize,
    pub cols: usize,
}

impl DataTable {
    /// The cached shape agrees with the data, and the data is valid.
    pub open spec fn wf(self) -> bool {
        &&& table_valid(rows_of(self.args@), self.results@)
        &&& self.rows == self.args@.len()
        &&& self.cols == rows_of(self.args@)[0].len()
    }

    /// Accept a dataset, rejecting an empty or ragged one and any target
    /// return too large in magnitude for the fixed-point scale.
    pub fn new(a: Vec<Vec<i64>>, r: Vec<i64>) -> (res: Option<Self>)
        ensures
            res is Some <==> table_valid(rows_of(a@), r@),
            res matches Some(dt) ==> {
                &&& dt.wf()
                &&& dt.args@ == a@
                &&& dt.results@ == r@
                &&& dt.rows == a@.len()
                &&& dt.cols == a@[0]@.len()
            },
    {
        let al = a.len();
        let rl = r.len();
        if al == 0 {
            return None;
        }
        let arl = a[0].len();
        if arl == 0 {
            return None;
        }
        if al != rl {
            return None;
        }
        let mut i: usize = 0;
        while i < al
            invariant
                i <= al,
                al == a@.len(),
                arl == rows_of(a@)[0].len(),
                forall|j: int| 0 <= j < i ==> (#[trigger] rows_of(a@)[j]).len() == arl,
            decreases al - i,
        {
            if a[i].len() != arl {
                proof {
                    assert(rows_of(a@)[i as int] == a@[i as int]@);
                }
                return None;
            }
            i = i + 1;
        }
        let mut j: usize = 0;
        while j < rl
            invariant
                j <= rl,
                rl == r@.len(),
                forall|q: int|
                    0 <= q < j ==> -(FX_MAX_ABS as int) <= #[trigger] r@[q] <= FX_MAX_ABS as int,
            decreases rl - j,
        {
            let v = r[j];
            if v > FX_MAX_ABS || v < -FX_MAX_ABS {
                return None;
            }
            j = j + 1;
        }
        Some(DataTable { rows: al, cols: arl, args: a, results: r })
    }

    /// One row of the dataset: its feature vector and its target return.
    pub fn get_data_row(&self, idx: usize) -> (res: Option<(&Vec<i64>, i64)>)
        requires
            self.wf(),
        ensures
            res is Some <==> idx < self.rows,
            res matches Some(p) ==> p.0@ == self.args@[idx as int]@ && p.1
                == self.results@[idx as int],
    {
        if idx < self.rows {
            Some((&self.args[idx], self.results[idx]))
        } else {
            None
        }
    }
}

} // verus!
