//! Scoring a compiled chromosome against the labelled dataset: a scalar
//! fitness over the training split, and cumulative equity curves over
//! either split.

use vstd::prelude::*;
use vstd::arithmetic::div_mod::{lemma_div_is_ordered, lemma_div_multiples_vanish};
use crate::chromosome::{Chromosome, mem_of, row_model};
use crate::codons::CodonKind;
use crate::data_table::{DataTable, rows_of, table_valid};
use crate::fx::{FX_MAX_ABS, FX_SCALE};

verus! {

/// Sum of the absolute target returns over rows `[from, to)`.
pub open spec fn abs_sum(rets: Seq<i64>, from: int, to: int) -> int
    decreases to - from,
{
    if to <= from {
        0
    } else {
        abs_sum(rets, from, to - 1) + (if rets[to - 1] < 0 {
            -(rets[to - 1] as int)
        } else {
            rets[to - 1] as int
        })
    }
}

/// What one row contributes to the running score: the target return, its
/// negation, or nothing, by the sign of the signal.
pub open spec fn row_gain(t: i64, sig: int) -> int {
    if sig > 0 {
        t as int
    } else if sig < 0 {
        -(t as int)
    } else {
        0
    }
}

/// The memory cells of a freshly compiled chromosome: all zero.
pub open spec fn zero_mem(len: int) -> Map<int, int> {
    Map::new(|p: int| 0 <= p < len, |p: int| 0)
}

/// The weighted score of the first `n` rows: each row is evaluated in
/// sequence (memory cells carried from row to row) and contributes its
/// target return weighted by the sign of the signal.
pub open spec fn score_model(
    kinds: Seq<CodonKind>,
    glen: int,
    gn: int,
    rows: Seq<Seq<i64>>,
    rets: Seq<i64>,
    mem: Map<int, int>,
    n: int,
) -> (int, Map<int, int>)
    decreases n,
{
    if n <= 0 {
        (0, mem)
    } else {
        let prev = score_model(kinds, glen, gn, rows, rets, mem, n - 1);
        let rm = row_model(kinds, prev.1, rows[n - 1], glen, gn);
        (prev.0 + row_gain(rets[n - 1], rm.0), rm.1)
    }
}

/// The cumulative equity curve over `n` rows starting at `from`: entry `i`
/// is the running sum of the contributions of rows `from ..= from + i`.
pub open spec fn equity_model(
    kinds: Seq<CodonKind>,
    glen: int,
    gn: int,
    rows: Seq<Seq<i64>>,
    rets: Seq<i64>,
    mem: Map<int, int>,
    from: int,
    n: int,
) -> (Seq<int>, Map<int, int>)
    decreases n,
{
    if n <= 0 {
        (Seq::empty(), mem)
    } else {
        let prev = equity_model(kinds, glen, gn, rows, rets, mem, from, n - 1);
        let rm = row_model(kinds, prev.1, rows[from + n - 1], glen, gn);
        let acc = (if prev.0.len() == 0 {
            0int
        } else {
            prev.0.last()
        }) + row_gain(rets[from + n - 1], rm.0);
        (prev.0.push(acc), rm.1)
    }
}

/// The fitness evaluator: the dataset, the train/test split point, and the
/// perfect-equity normalizers (the best score a signal could reach on each
/// split).
pub struct FitnessFunction {
    pub data_table: DataTable,
    pub end_of_train_data: usize,
    pub train_perfect_equity: i128,
    pub test_perfect_equity: i128,
}

impl FitnessFunction {
    /// The split point and the normalizers agree with the dataset.
    pub open spec fn wf(self) -> bool {
        &&& self.data_table.wf()
        &&& self.end_of_train_data <= self.data_table.rows
        &&& self.train_perfect_equity as int == abs_sum(
            self.data_table.results@,
            0,
            self.end_of_train_data as int,
        )
        &&& self.test_perfect_equity as int == abs_sum(
            self.data_table.results@,
            self.end_of_train_data as int,
            self.data_table.rows as int,
        )
    }

    /// The training score a chromosome of the given identity earns, and the
    /// fitness it is assigned: the score normalized by the train perfect
    /// equity when positive, and 0 otherwise.
    pub open spec fn score_of(self, kinds: Seq<CodonKind>, glen: int, gn: int) -> int {
        score_model(
            kinds,
            glen,
            gn,
            rows_of(self.data_table.args@),
            self.data_table.results@,
            zero_mem(kinds.len() as int),
            self.end_of_train_data as int,
        ).0
    }

    /// The fitness assigned to a chromosome of the given identity: always
    /// non-negative, and exactly 0 when the weighted training score is not
    /// positive.
    pub open spec fn fitness_of(self, kinds: Seq<CodonKind>, glen: int, gn: int) -> int {
        let sc = self.score_of(kinds, glen, gn);
        if sc > 0 {
            sc * (FX_SCALE as int) / (self.train_perfect_equity as int)
        } else {
            0
        }
    }

    /// Build the evaluator: validate the dataset, place the train/test
    /// split at `rows * train_fraction` (truncated), and precompute each
    /// split's perfect equity.
    pub fn new(a: Vec<Vec<i64>>, r: Vec<i64>, train_fraction: i64) -> (res: Option<Self>)
        requires
            0 < train_fraction < FX_SCALE,
        ensures
            res is Some <==> table_valid(rows_of(a@), r@),
            res matches Some(ff) ==> {
                &&& ff.wf()
                &&& ff.data_table.args@ == a@
                &&& ff.data_table.results@ == r@
                &&& ff.end_of_train_data as int == r@.len() * train_fraction / (FX_SCALE as int)
            },
    {
        let len = r.len();
        let data_table = match DataTable::new(a, r) {
            Some(dt) => dt,
            None => {
                return None;
            },
        };
        proof {
            assert((len as int) * (train_fraction as int) <= (usize::MAX as int) * (
            FX_SCALE as int)) by (nonlinear_arith)
                requires
                    0 <= len as int <= usize::MAX as int,
                    0 < train_fraction as int <= FX_SCALE as int,
            ;
        }
        let end_of_train_data = (((len as u128) * (train_fraction as u128)) / (
        FX_SCALE as u128)) as usize;
        proof {
            assert(len * train_fraction < len * FX_SCALE) by (nonlinear_arith)
                requires
                    0 < train_fraction < FX_SCALE,
                    len >= 1,
            ;
            lemma_div_is_ordered(len * train_fraction, len * FX_SCALE, FX_SCALE as int);
            lemma_div_multiples_vanish(len as int, FX_SCALE as int);
            assert(len * FX_SCALE == (FX_SCALE as int) * (len as int));
            assert(len * train_fraction / (FX_SCALE as int) <= len);
        }
        let mut train_e: i128 = 0;
        let mut i: usize = 0;
        while i < end_of_train_data
            invariant
                i <= end_of_train_data,
                end_of_train_data <= data_table.rows,
                data_table.wf(),
                train_e as int == abs_sum(data_table.results@, 0, i as int),
                0 <= train_e as int <= i * (FX_MAX_ABS as int),
            decreases end_of_train_data - i,
        {
            let v = data_table.results[i];
            if v < 0 {
                train_e = train_e - v as i128;
            } else {
                train_e = train_e + v as i128;
            }
            i = i + 1;
        }
        let mut test_e: i128 = 0;
        let mut j: usize = end_of_train_data;
        while j < data_table.rows
            invariant
                end_of_train_data <= j <= data_table.rows,
                data_table.wf(),
                test_e as int == abs_sum(data_table.results@, end_of_train_data as int, j as int),
                0 <= test_e as int <= j * (FX_MAX_ABS as int),
            decreases data_table.rows - j,
        {
            let v = data_table.results[j];
            if v < 0 {
                test_e = test_e - v as i128;
            } else {
                test_e = test_e + v as i128;
            }
            j = j + 1;
        }
        Some(
            FitnessFunction {
                data_table,
                end_of_train_data,
                train_perfect_equity: train_e,
                test_perfect_equity: test_e,
            },
        )
    }

    /// Compile the chromosome and score it over the training rows: the
    /// running sum of target returns weighted by the signal's sign,
    /// normalized by the train perfect equity when positive, 0 otherwise.
    /// The fitness is therefore never negative.
    #[verifier::loop_isolation(false)]
    pub fn evaluate(&self, chr: &mut Chromosome) -> (f: i64)
        requires
            self.wf(),
            old(chr).wf(),
            old(chr).idx_below(self.data_table.cols as int),
        ensures
            final(chr).ready(),
            final(chr).idx_below(self.data_table.cols as int),
            final(chr).head_size == old(chr).head_size,
            final(chr).nbr_of_genes == old(chr).nbr_of_genes,
            final(chr).fitness == old(chr).fitness,
            final(chr).codons@.len() == old(chr).codons@.len(),
            forall|q: int|
                0 <= q < old(chr).cvs().len() ==> {
                    &&& (#[trigger] final(chr).cvs()[q]).kind == old(chr).cvs()[q].kind
                    &&& final(chr).cvs()[q].sym == old(chr).cvs()[q].sym
                },
            f as int == self.fitness_of(
                old(chr).kinds(),
                old(chr).glen(),
                old(chr).nbr_of_genes as int,
            ),
            0 <= f <= FX_SCALE,
            self.score_of(old(chr).kinds(), old(chr).glen(), old(chr).nbr_of_genes as int) <= 0
                ==> f == 0,
    {
        let ghost kinds0 = old(chr).kinds();
        let ghost glen0 = old(chr).glen();
        let ghost gn0 = old(chr).nbr_of_genes as int;
        let ghost len0 = old(chr).codons@.len() as int;
        let ghost frows = rows_of(self.data_table.args@);
        let ghost rets = self.data_table.results@;
        chr.translate();
        proof {
            assert forall|i: int| 0 <= i < len0 implies chr.kinds()[i] == kinds0[i] by {
                assert(chr.cvs()[i].kind == old(chr).cvs()[i].kind);
            }
            assert(chr.kinds() =~= kinds0);
            assert(mem_of(chr.cvs()) =~= zero_mem(len0));
            assert forall|p: int|
                0 <= p < chr.kinds().len() implies ((#[trigger] chr.kinds()[p])
                    matches CodonKind::Term { idx } ==> 0 <= idx < self.data_table.cols as int) by {
                assert(old(chr).kinds()[p] == chr.kinds()[p]);
            }
        }
        let end = self.end_of_train_data;
        let mut res: i128 = 0;
        let mut i: usize = 0;
        while i < end
            invariant
                i <= end,
                end <= self.data_table.rows,
                self.wf(),
                chr.ready(),
                chr.idx_below(self.data_table.cols as int),
                chr.head_size == old(chr).head_size,
                chr.nbr_of_genes == old(chr).nbr_of_genes,
                chr.fitness == old(chr).fitness,
                chr.codons@.len() == len0,
                glen0 == chr.glen(),
                gn0 == chr.nbr_of_genes as int,
                forall|q: int|
                    0 <= q < len0 ==> {
                        &&& (#[trigger] chr.cvs()[q]).kind == old(chr).cvs()[q].kind
                        &&& chr.cvs()[q].sym == old(chr).cvs()[q].sym
                    },
                res as int == score_model(kinds0, glen0, gn0, frows, rets, zero_mem(len0), i as int).0,
                mem_of(chr.cvs()) == score_model(
                    kinds0,
                    glen0,
                    gn0,
                    frows,
                    rets,
                    zero_mem(len0),
                    i as int,
                ).1,
                0 <= abs_sum(rets, 0, i as int) <= i * (FX_MAX_ABS as int),
                -abs_sum(rets, 0, i as int) <= res as int <= abs_sum(rets, 0, i as int),
            decreases end - i,
        {
            let row = &self.data_table.args[i];
            proof {
                assert(frows[i as int] == self.data_table.args@[i as int]@);
                assert(frows[i as int].len() == self.data_table.cols);
                assert forall|i2: int| 0 <= i2 < len0 implies chr.kinds()[i2] == kinds0[i2] by {
                    assert(chr.cvs()[i2].kind == old(chr).cvs()[i2].kind);
                }
                assert(chr.kinds() =~= kinds0);
                assert(-(FX_MAX_ABS as int) <= rets[i as int] <= FX_MAX_ABS as int);
            }
            let s = chr.eval_row(row);
            let t = self.data_table.results[i];
            proof {
                let prev = score_model(kinds0, glen0, gn0, frows, rets, zero_mem(len0), i as int);
                let step = score_model(
                    kinds0,
                    glen0,
                    gn0,
                    frows,
                    rets,
                    zero_mem(len0),
                    i as int + 1,
                );
                let rm = row_model(kinds0, prev.1, frows[i as int], glen0, gn0);
                assert(step.0 == prev.0 + row_gain(rets[i as int], rm.0) && step.1 == rm.1);
                assert(s as int == rm.0 && mem_of(chr.cvs()) == rm.1);
            }
            if s > 0 {
                res = res + t as i128;
            } else if s < 0 {
                res = res - t as i128;
            }
            i = i + 1;
        }
        proof {
            assert(res as int == self.score_of(kinds0, glen0, gn0));
            assert(self.train_perfect_equity as int == abs_sum(rets, 0, end as int));
        }
        if res > 0 {
            proof {
                let sc = res as int;
                let pe = self.train_perfect_equity as int;
                assert(0 < sc <= pe);
                assert(sc * (FX_SCALE as int) <= pe * (FX_SCALE as int)) by (nonlinear_arith)
                    requires
                        0 < sc <= pe,
                ;
                lemma_div_is_ordered(sc * (FX_SCALE as int), pe * (FX_SCALE as int), pe);
                lemma_div_multiples_vanish(FX_SCALE as int, pe);
                assert(pe * (FX_SCALE as int) == pe * (FX_SCALE as int));
                assert((pe * (FX_SCALE as int)) / pe == FX_SCALE as int);
                assert(sc * (FX_SCALE as int) / pe <= FX_SCALE as int);
                assert(sc * (FX_SCALE as int) >= 0) by (nonlinear_arith)
                    requires
                        sc >= 0,
                ;
                lemma_div_is_ordered(0, sc * (FX_SCALE as int), pe);
                assert(sc * (FX_SCALE as int) / pe >= 0);
                assert(sc <= (usize::MAX as int) * (FX_MAX_ABS as int));
                assert(sc * (FX_SCALE as int) <= (usize::MAX as int) * (FX_MAX_ABS as int) * (
                FX_SCALE as int)) by (nonlinear_arith)
                    requires
                        0 <= sc <= (usize::MAX as int) * (FX_MAX_ABS as int),
                ;
            }
            let num = (res as u128) * (FX_SCALE as u128);
            let f = (num / (self.train_perfect_equity as u128)) as i64;
            f
        } else {
            0
        }
    }

    /// Compile the chromosome and produce the cumulative equity curve over
    /// the chosen split: one running-sum entry per row, starting at 0,
    /// independent of the other split.
    #[verifier::loop_isolation(false)]
    pub fn equity(&self, train: bool, chr: &mut Chromosome) -> (ret: Vec<i128>)
        requires
            self.wf(),
            old(chr).wf(),
            old(chr).idx_below(self.data_table.cols as int),
        ensures
            final(chr).ready(),
            final(chr).idx_below(self.data_table.cols as int),
            final(chr).head_size == old(chr).head_size,
            final(chr).nbr_of_genes == old(chr).nbr_of_genes,
            final(chr).fitness == old(chr).fitness,
            final(chr).codons@.len() == old(chr).codons@.len(),
            forall|q: int|
                0 <= q < old(chr).cvs().len() ==> {
                    &&& (#[trigger] final(chr).cvs()[q]).kind == old(chr).cvs()[q].kind
                    &&& final(chr).cvs()[q].sym == old(chr).cvs()[q].sym
                },
            ({
                let from = if train {
                    0int
                } else {
                    self.end_of_train_data as int
                };
                let n = if train {
                    self.end_of_train_data as int
                } else {
                    self.data_table.rows - self.end_of_train_data
                };
                let m = equity_model(
                    old(chr).kinds(),
                    old(chr).glen(),
                    old(chr).nbr_of_genes as int,
                    rows_of(self.data_table.args@),
                    self.data_table.results@,
                    zero_mem(old(chr).codons@.len() as int),
                    from,
                    n,
                );
                ret@.len() == m.0.len() && forall|i: int|
                    0 <= i < m.0.len() ==> ret@[i] as int == m.0[i]
            }),
    {
        let ghost kinds0 = old(chr).kinds();
        let ghost glen0 = old(chr).glen();
        let ghost gn0 = old(chr).nbr_of_genes as int;
        let ghost len0 = old(chr).codons@.len() as int;
        let ghost frows = rows_of(self.data_table.args@);
        let ghost rets = self.data_table.results@;
        chr.translate();
        proof {
            assert forall|i: int| 0 <= i < len0 implies chr.kinds()[i] == kinds0[i] by {
                assert(chr.cvs()[i].kind == old(chr).cvs()[i].kind);
            }
            assert(chr.kinds() =~= kinds0);
            assert(mem_of(chr.cvs()) =~= zero_mem(len0));
            assert forall|p: int|
                0 <= p < chr.kinds().len() implies ((#[trigger] chr.kinds()[p])
                    matches CodonKind::Term { idx } ==> 0 <= idx < self.data_table.cols as int) by {
                assert(old(chr).kinds()[p] == chr.kinds()[p]);
            }
        }
        let from: usize = if train {
            0
        } else {
            self.end_of_train_data
        };
        let upto: usize = if train {
            self.end_of_train_data
        } else {
            self.data_table.rows
        };
        let mut ret: Vec<i128> = Vec::new();
        let mut res: i128 = 0;
        let mut i: usize = from;
        while i < upto
            invariant
                from <= i <= upto,
                upto <= self.data_table.rows,
                self.wf(),
                chr.ready(),
                chr.idx_below(self.data_table.cols as int),
                chr.head_size == old(chr).head_size,
                chr.nbr_of_genes == old(chr).nbr_of_genes,
                chr.fitness == old(chr).fitness,
                chr.codons@.len() == len0,
                glen0 == chr.glen(),
                gn0 == chr.nbr_of_genes as int,
                forall|q: int|
                    0 <= q < len0 ==> {
                        &&& (#[trigger] chr.cvs()[q]).kind == old(chr).cvs()[q].kind
                        &&& chr.cvs()[q].sym == old(chr).cvs()[q].sym
                    },
                ({
                    let m = equity_model(
                        kinds0,
                        glen0,
                        gn0,
                        frows,
                        rets,
                        zero_mem(len0),
                        from as int,
                        i - from,
                    );
                    &&& ret@.len() == m.0.len()
                    &&& forall|q: int| 0 <= q < m.0.len() ==> ret@[q] as int == m.0[q]
                    &&& mem_of(chr.cvs()) == m.1
                    &&& res as int == (if m.0.len() == 0 {
                        0int
                    } else {
                        m.0.last()
                    })
                }),
                0 <= abs_sum(rets, from as int, i as int) <= (i - from) * (FX_MAX_ABS as int),
                -abs_sum(rets, from as int, i as int) <= res as int <= abs_sum(
                    rets,
                    from as int,
                    i as int,
                ),
            decreases upto - i,
        {
            let row = &self.data_table.args[i];
            proof {
                assert(frows[i as int] == self.data_table.args@[i as int]@);
                assert(frows[i as int].len() == self.data_table.cols);
                assert forall|i2: int| 0 <= i2 < len0 implies chr.kinds()[i2] == kinds0[i2] by {
                    assert(chr.cvs()[i2].kind == old(chr).cvs()[i2].kind);
                }
                assert(chr.kinds() =~= kinds0);
                assert(-(FX_MAX_ABS as int) <= rets[i as int] <= FX_MAX_ABS as int);
                assert(abs_sum(rets, from as int, i as int + 1) == abs_sum(rets, from as int, i as int)
                    + (if rets[i as int] < 0 {
                    -(rets[i as int] as int)
                } else {
                    rets[i as int] as int
                }));
            }
            let s = chr.eval_row(row);
            let t = self.data_table.results[i];
            proof {
                let prev = equity_model(
                    kinds0,
                    glen0,
                    gn0,
                    frows,
                    rets,
                    zero_mem(len0),
                    from as int,
                    i - from,
                );
                let step = equity_model(
                    kinds0,
                    glen0,
                    gn0,
                    frows,
                    rets,
                    zero_mem(len0),
                    from as int,
                    i - from + 1,
                );
                let rm = row_model(kinds0, prev.1, frows[i as int], glen0, gn0);
                assert(step.0 == prev.0.push(
                    (if prev.0.len() == 0 {
                        0int
                    } else {
                        prev.0.last()
                    }) + row_gain(rets[i as int], rm.0),
                ) && step.1 == rm.1);
                assert(s as int == rm.0 && mem_of(chr.cvs()) == rm.1);
            }
            if s > 0 {
                res = res + t as i128;
            } else if s < 0 {
                res = res - t as i128;
            }
            ret.push(res);
            i = i + 1;
        }
        ret
    }
}

/// Scoring is deterministic: the fitness and the equity curve a
/// chromosome earns depend only on its codon identities and shape (and on
/// the dataset), never on its cached translation state or memory cells —
/// a fresh compilation resets both. Re-running the same chromosome
/// against the same evaluator therefore yields the same results.
pub proof fn lemma_scoring_deterministic(
    fe: FitnessFunction,
    a: Chromosome,
    b: Chromosome,
    from: int,
    n: int,
)
    requires
        a.kinds() == b.kinds(),
        a.head_size == b.head_size,
        a.nbr_of_genes == b.nbr_of_genes,
        a.codons@.len() == b.codons@.len(),
    ensures
        fe.fitness_of(a.kinds(), a.glen(), a.nbr_of_genes as int) == fe.fitness_of(
            b.kinds(),
            b.glen(),
            b.nbr_of_genes as int,
        ),
        equity_model(
            a.kinds(),
            a.glen(),
            a.nbr_of_genes as int,
            rows_of(fe.data_table.args@),
            fe.data_table.results@,
            zero_mem(a.codons@.len() as int),
            from,
            n,
        ) == equity_model(
            b.kinds(),
            b.glen(),
            b.nbr_of_genes as int,
            rows_of(fe.data_table.args@),
            fe.data_table.results@,
            zero_mem(b.codons@.len() as int),
            from,
            n,
        ),
{
}

/// Turn a series of price deltas into an evaluator: each row's features
/// are the signs of the `inputs_cnt` deltas preceding it, its target is
/// the delta that followed; the split point follows the train fraction.
#[verifier::loop_isolation(false)]
pub fn get_fitness_function(deltas: Vec<i64>, inputs_cnt: usize, train_fraction: i64) -> (res:
    Option<FitnessFunction>)
    requires
        inputs_cnt >= 1,
        0 < train_fraction < FX_SCALE,
    ensures
        res is Some <==> deltas@.len() > inputs_cnt && (forall|i: int|
            inputs_cnt <= i < deltas@.len() ==> -(FX_MAX_ABS as int) <= #[trigger] deltas@[i]
                <= FX_MAX_ABS as int),
        res matches Some(ff) ==> {
            &&& ff.wf()
            &&& ff.data_table.rows == deltas@.len() - inputs_cnt
            &&& ff.data_table.cols == inputs_cnt
            &&& forall|r: int|
                0 <= r < ff.data_table.rows ==> (#[trigger] ff.data_table.results@[r]) == deltas@[
                    r + inputs_cnt]
            &&& forall|r: int, j: int|
                0 <= r < ff.data_table.rows && 0 <= j < inputs_cnt
                    ==> (#[trigger] ff.data_table.args@[r]@[j]) as int == crate::fx::sign_unit_spec(
                    deltas@[r + j] as int,
                )
        },
{
    let n = deltas.len();
    if n <= inputs_cnt {
        return None;
    }
    let mut matrix: Vec<Vec<i64>> = Vec::new();
    let mut long_results: Vec<i64> = Vec::new();
    let mut i: usize = inputs_cnt;
    while i < n
        invariant
            inputs_cnt <= i <= n,
            n == deltas@.len(),
            matrix@.len() == i - inputs_cnt,
            long_results@.len() == i - inputs_cnt,
            forall|r: int|
                0 <= r < matrix@.len() ==> (#[trigger] matrix@[r])@.len() == inputs_cnt,
            forall|r: int, j: int|
                0 <= r < matrix@.len() && 0 <= j < inputs_cnt ==> (#[trigger] matrix@[r]@[j])
                    as int == crate::fx::sign_unit_spec(deltas@[r + j] as int),
            forall|r: int|
                0 <= r < long_results@.len() ==> (#[trigger] long_results@[r]) == deltas@[r
                    + inputs_cnt],
        decreases n - i,
    {
        let mut row: Vec<i64> = Vec::new();
        let mut j: usize = i - inputs_cnt;
        while j < i
            invariant
                i - inputs_cnt <= j <= i,
                i <= n,
                n == deltas@.len(),
                row@.len() == j - (i - inputs_cnt),
                forall|q: int|
                    0 <= q < row@.len() ==> (#[trigger] row@[q]) as int
                        == crate::fx::sign_unit_spec(deltas@[(i - inputs_cnt) + q] as int),
            decreases i - j,
        {
            row.push(crate::fx::sign_unit(deltas[j]));
            j = j + 1;
        }
        long_results.push(deltas[i]);
        matrix.push(row);
        i = i + 1;
    }
    let ghost mm = matrix@;
    let ghost rr = long_results@;
    let res = FitnessFunction::new(matrix, long_results, train_fraction);
    proof {
        assert(rows_of(mm).len() == mm.len());
        assert forall|r: int| 0 <= r < mm.len() implies (#[trigger] rows_of(mm)[r]).len()
            == inputs_cnt by {
            assert(rows_of(mm)[r] == mm[r]@);
        }
        if table_valid(rows_of(mm), rr) {
            assert forall|i2: int|
                inputs_cnt <= i2 < deltas@.len() implies -(FX_MAX_ABS as int)
                    <= #[trigger] deltas@[i2] <= FX_MAX_ABS as int by {
                assert(rr[i2 - inputs_cnt] == deltas@[i2]);
            }
        } else {
            assert(rows_of(mm)[0] == mm[0]@);
            if forall|i2: int|
                inputs_cnt <= i2 < deltas@.len() ==> -(FX_MAX_ABS as int) <= #[trigger] deltas@[i2]
                    <= FX_MAX_ABS as int {
                assert forall|r: int|
                    0 <= r < rr.len() implies -(FX_MAX_ABS as int) <= #[trigger] rr[r]
                        <= FX_MAX_ABS as int by {
                    assert(rr[r] == deltas@[r + inputs_cnt]);
                    assert(deltas@[r + inputs_cnt] == #[trigger] deltas@[r + inputs_cnt]);
                }
                assert(table_valid(rows_of(mm), rr));
                assert(false);
            }
        }
    }
    res
}

} // verus!
