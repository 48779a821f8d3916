//! The population and its generational loop: evaluate, select by roulette
//! wheel, vary by mutation / transposition / crossover, and carry the best
//! individual over unchanged.

use vstd::prelude::*;
use vstd::arithmetic::div_mod::{lemma_div_is_ordered, lemma_div_multiples_vanish};
use crate::chromosome::Chromosome;
use crate::fitness_evaluator::FitnessFunction;
use crate::fx::{CONVERGENCE_THRESHOLD, FITNESS_EPSILON, FX_SCALE, MIN_TOTAL_FITNESS};
use crate::rng::{fresh_rng, rand_below_wide};

verus! {

/// How many whole-population reinitializations a search will attempt when
/// the total fitness stays degenerate, before giving up.
pub const REINIT_LIMIT: usize = 1_000;

/// The fitness the evaluator's model assigns to one chromosome.
pub open spec fn chr_fit(fe: FitnessFunction, c: Chromosome) -> int {
    fe.fitness_of(c.kinds(), c.glen(), c.nbr_of_genes as int)
}

/// Sum of the model fitness over the first `n` chromosomes.
pub open spec fn total_fitness(chs: Seq<Chromosome>, fe: FitnessFunction, n: int) -> int
    decreases n,
{
    if n <= 0 {
        0
    } else {
        total_fitness(chs, fe, n - 1) + chr_fit(fe, chs[n - 1])
    }
}

/// The indices the roulette wheel includes, over the first `n`
/// chromosomes: exactly those whose fitness lies strictly above the
/// epsilon, in ascending order.
pub open spec fn wheel_ids_model(chs: Seq<Chromosome>, n: int) -> Seq<int>
    decreases n,
{
    if n <= 0 {
        Seq::empty()
    } else {
        let prev = wheel_ids_model(chs, n - 1);
        if chs[n - 1].fitness > FITNESS_EPSILON {
            prev.push(n - 1)
        } else {
            prev
        }
    }
}

/// Bounds on the fitness total, given per-chromosome bounds.
pub proof fn lemma_total_fitness_bounds(chs: Seq<Chromosome>, fe: FitnessFunction, n: int)
    requires
        n >= 0,
        forall|i: int| 0 <= i < n ==> 0 <= #[trigger] chr_fit(fe, chs[i]) <= FX_SCALE as int,
    ensures
        0 <= total_fitness(chs, fe, n) <= n * (FX_SCALE as int),
        forall|k: int| 0 <= k < n ==> #[trigger] chr_fit(fe, chs[k]) <= total_fitness(chs, fe, n),
    decreases n,
{
    if n <= 0 {
    } else {
        lemma_total_fitness_bounds(chs, fe, n - 1);
        assert(n * (FX_SCALE as int) == (n - 1) * (FX_SCALE as int) + FX_SCALE as int)
            by (nonlinear_arith);
    }
}

/// A fixed-size population of chromosomes, the algorithm parameters, and
/// the shared random generator that every operator draws from.
pub struct Population {
    pub rng: rand::rngs::ThreadRng,
    pub chromosomes: Vec<Chromosome>,
    pub size: usize,
    pub gene_nbr: usize,
    pub hl: usize,
    pub num_args: usize,
    pub denominator: usize,
    pub transposition_probability: i64,
    pub mutation_probability: i64,
}

impl Population {
    /// Every chromosome is structurally valid and shaped by the
    /// population's parameters.
    pub open spec fn wf(self) -> bool {
        &&& self.size >= 2
        &&& self.chromosomes@.len() == self.size
        &&& self.gene_nbr >= 1
        &&& self.hl >= 1
        &&& self.num_args >= 1
        &&& self.denominator == self.size
        &&& 0 <= self.mutation_probability <= FX_SCALE
        &&& self.transposition_probability <= FX_SCALE
        &&& forall|i: int|
            0 <= i < self.chromosomes@.len() ==> {
                let c = #[trigger] self.chromosomes@[i];
                &&& c.wf()
                &&& c.head_size == self.hl
                &&& c.nbr_of_genes == self.gene_nbr
                &&& c.idx_below(self.num_args as int)
            }
    }

    /// All fitness fields hold normalized values in `[0, FX_SCALE]`.
    pub open spec fn fitness_in_range(self) -> bool {
        forall|i: int|
            0 <= i < self.chromosomes@.len() ==> 0 <= (#[trigger] self.chromosomes@[i]).fitness
                <= FX_SCALE
    }

    /// Build a population of `size` random valid chromosomes. Parameters
    /// below their minimum are clamped; probabilities are clamped into the
    /// fixed-point unit range as the loop expects them.
    #[verifier::loop_isolation(false)]
    pub fn new(
        size: usize,
        gn: usize,
        hl: usize,
        num_args: usize,
        transposition_probability: i64,
        mutation_probability: i64,
    ) -> (r: Population)
        requires
            (if gn < 1 {
                1int
            } else {
                gn as int
            }) * (2 * (if hl < 1 {
                1int
            } else {
                hl as int
            }) + 1) <= usize::MAX,
        ensures
            r.wf(),
            r.size as int == if size < 2 {
                2int
            } else {
                size as int
            },
            r.gene_nbr as int == if gn < 1 {
                1int
            } else {
                gn as int
            },
            r.hl as int == if hl < 1 {
                1int
            } else {
                hl as int
            },
            r.num_args as int == if num_args < 1 {
                1int
            } else {
                num_args as int
            },
            forall|i: int|
                0 <= i < r.chromosomes@.len() ==> (#[trigger] r.chromosomes@[i]).fitness == 0,
    {
        let size_c = if size < 2 {
            2
        } else {
            size
        };
        let gn_c = if gn < 1 {
            1
        } else {
            gn
        };
        let hl_c = if hl < 1 {
            1
        } else {
            hl
        };
        let na_c = if num_args < 1 {
            1
        } else {
            num_args
        };
        let tp = if transposition_probability > FX_SCALE {
            FX_SCALE
        } else {
            transposition_probability
        };
        let mp = if mutation_probability > FX_SCALE {
            FX_SCALE
        } else if mutation_probability <= 0 {
            0
        } else {
            mutation_probability
        };
        let mut rg = fresh_rng();
        let mut chr: Vec<Chromosome> = Vec::new();
        let mut i: usize = 0;
        while i < size_c
            invariant
                i <= size_c,
                chr@.len() == i,
                forall|j: int|
                    0 <= j < i ==> {
                        let c = #[trigger] chr@[j];
                        &&& c.wf()
                        &&& c.head_size == hl_c
                        &&& c.nbr_of_genes == gn_c
                        &&& c.idx_below(na_c as int)
                        &&& c.fitness == 0
                    },
            decreases size_c - i,
        {
            let c = Chromosome::new(&mut rg, gn_c, hl_c, na_c);
            chr.push(c);
            i = i + 1;
        }
        Population {
            rng: rg,
            chromosomes: chr,
            size: size_c,
            gene_nbr: gn_c,
            hl: hl_c,
            num_args: na_c,
            denominator: size_c,
            transposition_probability: tp,
            mutation_probability: mp,
        }
    }

    /// Score every chromosome against the evaluator. If the total fitness
    /// is degenerate (below the minimum), nothing is changed and `None`
    /// comes back. Otherwise every fitness field is normalized by the
    /// total, and the entry `(best fitness, average fitness, best
    /// chromosome's rendering, best index)` is returned; the best index is
    /// the first one reaching the maximum raw fitness.
    #[verifier::loop_isolation(false)]
    pub fn evaluate(&mut self, fe: &FitnessFunction) -> (r: Option<(i64, i64, String, usize)>)
        requires
            old(self).wf(),
            fe.wf(),
            old(self).num_args <= fe.data_table.cols,
        ensures
            final(self).wf(),
            final(self).size == old(self).size,
            final(self).gene_nbr == old(self).gene_nbr,
            final(self).hl == old(self).hl,
            final(self).num_args == old(self).num_args,
            final(self).denominator == old(self).denominator,
            final(self).transposition_probability == old(self).transposition_probability,
            final(self).mutation_probability == old(self).mutation_probability,
            final(self).chromosomes@.len() == old(self).chromosomes@.len(),
            forall|i: int|
                0 <= i < old(self).chromosomes@.len() ==> (
                #[trigger] final(self).chromosomes@[i]).kinds() == old(self).chromosomes@[
                    i].kinds(),
            r is None <==> total_fitness(
                old(self).chromosomes@,
                *fe,
                old(self).size as int,
            ) < MIN_TOTAL_FITNESS as int,
            r matches Some(s) ==> {
                &&& s.3 < old(self).size
                &&& s.0 as int == chr_fit(*fe, old(self).chromosomes@[s.3 as int])
                &&& forall|j: int|
                    0 <= j < old(self).size ==> #[trigger] chr_fit(
                        *fe,
                        old(self).chromosomes@[j],
                    ) <= s.0 as int
                &&& forall|j: int|
                    0 <= j < s.3 ==> #[trigger] chr_fit(*fe, old(self).chromosomes@[j]) < s.0
                        as int
                &&& 0 <= s.0 <= FX_SCALE
                &&& s.1 as int == total_fitness(
                    old(self).chromosomes@,
                    *fe,
                    old(self).size as int,
                ) / (old(self).size as int)
                &&& 0 <= s.1 <= FX_SCALE
                &&& ({
                    let c = final(self).chromosomes@[s.3 as int];
                    s.2@ == crate::chromosome::k_string_model(
                        c.cvs(),
                        c.glen(),
                        c.nbr_of_genes as int,
                        c.nbr_of_genes as int,
                    )
                })
                &&& forall|j: int|
                    0 <= j < old(self).size ==> (#[trigger] final(self).chromosomes@[j]).fitness
                        as int == chr_fit(*fe, old(self).chromosomes@[j]) * (FX_SCALE as int)
                        / total_fitness(old(self).chromosomes@, *fe, old(self).size as int)
                &&& final(self).fitness_in_range()
            },
            r is None ==> forall|j: int|
                0 <= j < old(self).size ==> (#[trigger] final(self).chromosomes@[j]).fitness
                    as int == chr_fit(*fe, old(self).chromosomes@[j]),
    {
        let ghost chs0 = old(self).chromosomes@;
        let n = self.chromosomes.len();
        let mut done: Vec<Chromosome> = Vec::new();
        let mut total: i128 = 0;
        let mut mf: i64 = -1;
        let mut ii: usize = 0;
        while self.chromosomes.len() > 0
            invariant
                done@.len() + self.chromosomes@.len() == n,
                self.chromosomes@ == chs0.subrange(done@.len() as int, n as int),
                forall|j: int|
                    0 <= j < done@.len() ==> {
                        let c = #[trigger] done@[j];
                        &&& c.wf()
                        &&& c.head_size == old(self).hl
                        &&& c.nbr_of_genes == old(self).gene_nbr
                        &&& c.idx_below(old(self).num_args as int)
                        &&& c.kinds() == chs0[j].kinds()
                        &&& c.fitness as int == chr_fit(*fe, chs0[j])
                        &&& 0 <= c.fitness <= FX_SCALE
                    },
                total as int == total_fitness(chs0, *fe, done@.len() as int),
                0 <= total as int <= done@.len() * (FX_SCALE as int),
                done@.len() == 0 ==> mf == -1,
                done@.len() > 0 ==> {
                    &&& ii < done@.len()
                    &&& mf as int == chr_fit(*fe, chs0[ii as int])
                    &&& 0 <= mf <= FX_SCALE
                    &&& forall|j: int|
                        0 <= j < done@.len() ==> #[trigger] chr_fit(*fe, chs0[j]) <= mf as int
                    &&& forall|j: int| 0 <= j < ii ==> #[trigger] chr_fit(*fe, chs0[j]) < mf as int
                },
                self.size == old(self).size,
                self.gene_nbr == old(self).gene_nbr,
                self.hl == old(self).hl,
                self.num_args == old(self).num_args,
                self.denominator == old(self).denominator,
                self.transposition_probability == old(self).transposition_probability,
                self.mutation_probability == old(self).mutation_probability,
            decreases self.chromosomes@.len(),
        {
            let ghost k = done@.len() as int;
            let mut c = self.chromosomes.remove(0);
            proof {
                assert(c == chs0[k]);
                assert(self.chromosomes@ =~= chs0.subrange(k + 1, n as int));
                assert(old(self).wf());
                assert(chs0[k].wf() && chs0[k].idx_below(old(self).num_args as int));
                assert forall|p: int|
                    0 <= p < c.kinds().len() implies ((#[trigger] c.kinds()[p])
                        matches crate::codons::CodonKind::Term { idx } ==> 0 <= idx
                        < fe.data_table.cols as int) by {
                    assert(c.idx_below(old(self).num_args as int));
                    assert(c.kinds()[p] matches crate::codons::CodonKind::Term { idx } ==> 0 <= idx
                        < old(self).num_args as int);
                }
            }
            let f = c.pass(fe);
            proof {
                assert forall|p2: int|
                    0 <= p2 < chs0[k].codons@.len() implies c.kinds()[p2] == chs0[k].kinds()[
                    p2] by {
                    assert(c.cvs()[p2].kind == chs0[k].cvs()[p2].kind);
                }
                assert(c.kinds() =~= chs0[k].kinds());
                assert(f as int == chr_fit(*fe, chs0[k]));
                assert(total_fitness(chs0, *fe, k + 1) == total_fitness(chs0, *fe, k) + chr_fit(
                    *fe,
                    chs0[k],
                ));
            }
            if f > mf {
                mf = f;
                ii = done.len();
            }
            total = total + f as i128;
            done.push(c);
        }
        proof {
            assert(done@.len() == n);
            assert(n == old(self).size);
        }
        if total < MIN_TOTAL_FITNESS as i128 {
            self.chromosomes = done;
            return None;
        }
        let ghost d0 = done@;
        let mut normd: Vec<Chromosome> = Vec::new();
        while done.len() > 0
            invariant
                normd@.len() + done@.len() == n,
                done@ == d0.subrange(normd@.len() as int, n as int),
                total as int == total_fitness(chs0, *fe, n as int),
                MIN_TOTAL_FITNESS as int <= total as int <= n * (FX_SCALE as int),
                forall|j: int|
                    0 <= j < n ==> {
                        let c = #[trigger] d0[j];
                        &&& c.wf()
                        &&& c.head_size == old(self).hl
                        &&& c.nbr_of_genes == old(self).gene_nbr
                        &&& c.idx_below(old(self).num_args as int)
                        &&& c.kinds() == chs0[j].kinds()
                        &&& c.fitness as int == chr_fit(*fe, chs0[j])
                        &&& 0 <= c.fitness <= FX_SCALE
                    },
                forall|j: int|
                    0 <= j < normd@.len() ==> {
                        let c = #[trigger] normd@[j];
                        &&& c.wf()
                        &&& c.head_size == old(self).hl
                        &&& c.nbr_of_genes == old(self).gene_nbr
                        &&& c.idx_below(old(self).num_args as int)
                        &&& c.kinds() == chs0[j].kinds()
                        &&& c.fitness as int == chr_fit(*fe, chs0[j]) * (FX_SCALE as int) / (
                        total as int)
                        &&& 0 <= c.fitness <= FX_SCALE
                    },
            decreases done@.len(),
        {
            let ghost k = normd@.len() as int;
            let mut c = done.remove(0);
            proof {
                assert(c == d0[k]);
                assert(done@ =~= d0.subrange(k + 1, n as int));
                assert forall|i: int|
                    0 <= i < n implies 0 <= #[trigger] chr_fit(*fe, chs0[i]) <= FX_SCALE as int by {
                    assert(d0[i].fitness as int == chr_fit(*fe, chs0[i]));
                }
                lemma_total_fitness_bounds(chs0, *fe, n as int);
                assert(chr_fit(*fe, chs0[k]) <= total as int);
            }
            let f = c.fitness;
            let nf = (((f as u128) * (FX_SCALE as u128)) / (total as u128)) as i64;
            proof {
                let fi = f as int;
                let ti = total as int;
                assert(fi * (FX_SCALE as int) <= ti * (FX_SCALE as int)) by (nonlinear_arith)
                    requires
                        0 <= fi <= ti,
                ;
                lemma_div_is_ordered(fi * (FX_SCALE as int), ti * (FX_SCALE as int), ti);
                lemma_div_multiples_vanish(FX_SCALE as int, ti);
                assert((ti * (FX_SCALE as int)) / ti == FX_SCALE as int);
                assert(fi * (FX_SCALE as int) >= 0) by (nonlinear_arith)
                    requires
                        fi >= 0,
                ;
                lemma_div_is_ordered(0, fi * (FX_SCALE as int), ti);
                assert(nf as int == fi * (FX_SCALE as int) / ti);
            }
            let ghost cpre = c;
            c.fitness = nf;
            proof {
                crate::chromosome::lemma_struct_twin(cpre, c);
            }
            normd.push(c);
        }
        self.chromosomes = normd;
        proof {
            assert(self.chromosomes@.len() == n);
            assert(total as int >= MIN_TOTAL_FITNESS as int);
            assert(done@.len() == 0);
            assert(n >= 2);
            assert(ii < n);
        }
        let ks = self.chromosomes[ii].k_string();
        let avg = (((total as u128)) / (n as u128)) as i64;
        proof {
            lemma_div_is_ordered(total as int, n * (FX_SCALE as int), n as int);
            lemma_div_multiples_vanish(FX_SCALE as int, n as int);
            assert((n * (FX_SCALE as int)) / (n as int) == FX_SCALE as int);
            lemma_div_is_ordered(0, total as int, n as int);
            assert(avg as int == (total as int) / (n as int));
        }
        Some((mf, avg, ks, ii))
    }

    /// Build the roulette wheel: the running cumulative sum of the
    /// normalized fitness of every individual strictly above the epsilon.
    /// The id column is pinned exactly: every qualifying chromosome appears
    /// once, in ascending index order, and near-zero individuals are
    /// excluded entirely, so selection can never pick one of them.
    #[verifier::loop_isolation(false)]
    pub fn build_roulette_wheel(&self) -> (r: (Vec<i128>, Vec<usize>))
        requires
            self.wf(),
            self.fitness_in_range(),
        ensures
            r.0@.len() == r.1@.len(),
            forall|k: int|
                0 <= k < r.1@.len() ==> (#[trigger] r.1@[k]) < self.size && self.chromosomes@[
                    r.1@[k] as int].fitness > FITNESS_EPSILON,
            forall|k: int|
                0 <= k < r.0@.len() ==> (#[trigger] r.0@[k]) as int == (if k == 0 {
                    0int
                } else {
                    r.0@[k - 1] as int
                }) + self.chromosomes@[r.1@[k] as int].fitness,
            forall|k: int| 0 <= k < r.0@.len() ==> 0 < (#[trigger] r.0@[k]) as int <= (k + 1) * (
            FX_SCALE as int),
            r.1@.map(|k: int, v: usize| v as int) == wheel_ids_model(
                self.chromosomes@,
                self.chromosomes@.len() as int,
            ),
    {
        let n = self.chromosomes.len();
        let mut wheel: Vec<i128> = Vec::new();
        let mut wheel_idx: Vec<usize> = Vec::new();
        let mut prev: i128 = 0;
        let mut i: usize = 0;
        while i < n
            invariant
                i <= n,
                n == self.chromosomes@.len(),
                wheel@.len() == wheel_idx@.len(),
                forall|k: int|
                    0 <= k < wheel_idx@.len() ==> (#[trigger] wheel_idx@[k]) < i
                        && self.chromosomes@[wheel_idx@[k] as int].fitness > FITNESS_EPSILON,
                forall|k: int|
                    0 <= k < wheel@.len() ==> (#[trigger] wheel@[k]) as int == (if k == 0 {
                        0int
                    } else {
                        wheel@[k - 1] as int
                    }) + self.chromosomes@[wheel_idx@[k] as int].fitness,
                forall|k: int|
                    0 <= k < wheel@.len() ==> 0 < (#[trigger] wheel@[k]) as int <= (k + 1) * (
                    FX_SCALE as int),
                prev as int == (if wheel@.len() == 0 {
                    0int
                } else {
                    wheel@[wheel@.len() - 1] as int
                }),
                wheel@.len() <= i,
                wheel_idx@.map(|k: int, v: usize| v as int) == wheel_ids_model(
                    self.chromosomes@,
                    i as int,
                ),
            decreases n - i,
        {
            let ghost ids_pre = wheel_idx@;
            let f = self.chromosomes[i].fitness;
            if f > FITNESS_EPSILON {
                proof {
                    let k = wheel@.len() as int;
                    assert((k + 1) * (FX_SCALE as int) == k * (FX_SCALE as int) + FX_SCALE as int)
                        by (nonlinear_arith);
                    assert(0 <= f <= FX_SCALE);
                }
                prev = prev + f as i128;
                wheel.push(prev);
                wheel_idx.push(i);
                proof {
                    assert(wheel_idx@.map(|k: int, v: usize| v as int) =~= ids_pre.map(
                        |k: int, v: usize| v as int,
                    ).push(i as int));
                    assert(wheel_idx@.map(|k: int, v: usize| v as int) =~= wheel_ids_model(
                        self.chromosomes@,
                        i as int + 1,
                    ));
                }
            } else {
                proof {
                    assert(wheel_idx@.map(|k: int, v: usize| v as int) =~= wheel_ids_model(
                        self.chromosomes@,
                        i as int + 1,
                    ));
                }
            }
            i = i + 1;
        }
        (wheel, wheel_idx)
    }

    /// Run the evolutionary search: evaluate the initial population
    /// (reinitializing it while the total fitness is degenerate, up to the
    /// retry budget), then for up to `g` generations select, vary and
    /// re-evaluate, stopping early once the best fitness exceeds the
    /// convergence threshold. One stat entry `(max fitness, avg fitness,
    /// best rendering, best index)` is produced per evaluation, and thanks
    /// to elitism the max-fitness entries never decrease.
    ///
    /// Degeneracy is otherwise not surfaced, but it does bound the output:
    /// if the retry budget runs out the result is empty, and if a varied
    /// generation's evaluation is degenerate the run ends early, so a
    /// caller may see fewer than `g + 1` entries.
    #[verifier::loop_isolation(false)]
    pub fn search(&mut self, fe: &FitnessFunction, g: usize) -> (stat: Vec<
        (i64, i64, String, usize),
    >)
        requires
            old(self).wf(),
            fe.wf(),
            old(self).num_args <= fe.data_table.cols,
            g < usize::MAX,
        ensures
            final(self).wf(),
            final(self).size == old(self).size,
            stat@.len() <= g + 1,
            forall|i: int|
                0 <= i < stat@.len() ==> 0 <= (#[trigger] stat@[i]).0 <= FX_SCALE && stat@[i].3
                    < final(self).size,
            forall|i: int| 0 < i < stat@.len() ==> (#[trigger] stat@[i]).0 >= stat@[i - 1].0,
    {
        let mut stat: Vec<(i64, i64, String, usize)> = Vec::new();
        // initialization: retry whole-population reinitialization while the
        // total fitness stays degenerate
        let mut attempts: usize = 0;
        let mut have_first = false;
        while !have_first && attempts < REINIT_LIMIT
            invariant
                self.wf(),
                self.size == old(self).size,
                self.gene_nbr == old(self).gene_nbr,
                self.hl == old(self).hl,
                self.num_args == old(self).num_args,
                self.denominator == old(self).denominator,
                self.transposition_probability == old(self).transposition_probability,
                self.mutation_probability == old(self).mutation_probability,
                attempts <= REINIT_LIMIT,
                stat@.len() == (if have_first {
                    1int
                } else {
                    0int
                }),
                have_first ==> ({
                    let l = stat@[0];
                    &&& l.3 < self.size
                    &&& 0 <= l.0 <= FX_SCALE
                    &&& l.0 as int == chr_fit(*fe, self.chromosomes@[l.3 as int])
                    &&& self.fitness_in_range()
                }),
            decreases REINIT_LIMIT - attempts, (if have_first {
                0int
            } else {
                1int
            }),
        {
            let ghost pre = *self;
            let r = self.evaluate(fe);
            match r {
                Option::Some(s) => {
                    proof {
                        assert(s.0 as int == chr_fit(*fe, pre.chromosomes@[s.3 as int]));
                        assert(self.chromosomes@[s.3 as int].kinds() == pre.chromosomes@[
                            s.3 as int].kinds());
                        assert(self.chromosomes@[s.3 as int].head_size == pre.chromosomes@[
                            s.3 as int].head_size);
                    }
                    stat.push(s);
                    have_first = true;
                },
                Option::None => {
                    // degenerate: throw the population away and start over
                    let limit_witness = self.chromosomes[0].codons.len();
                    proof {
                        let c0 = self.chromosomes@[0];
                        assert(c0.codons@.len() == c0.nbr_of_genes * c0.glen());
                        assert(limit_witness as int == (self.gene_nbr as int) * (2 * (
                        self.hl as int) + 1));
                    }
                    let n = self.size;
                    let mut fresh_chs: Vec<Chromosome> = Vec::new();
                    let mut j: usize = 0;
                    while j < n
                        invariant
                            j <= n,
                            fresh_chs@.len() == j,
                            self.gene_nbr >= 1,
                            self.hl >= 1,
                            self.num_args >= 1,
                            (self.gene_nbr as int) * (2 * (self.hl as int) + 1) <= usize::MAX,
                            forall|q: int|
                                0 <= q < j ==> {
                                    let c = #[trigger] fresh_chs@[q];
                                    &&& c.wf()
                                    &&& c.head_size == self.hl
                                    &&& c.nbr_of_genes == self.gene_nbr
                                    &&& c.idx_below(self.num_args as int)
                                },
                            self.size == old(self).size,
                            self.gene_nbr == old(self).gene_nbr,
                            self.hl == old(self).hl,
                            self.num_args == old(self).num_args,
                            self.denominator == old(self).denominator,
                            self.transposition_probability == old(
                                self,
                            ).transposition_probability,
                            self.mutation_probability == old(self).mutation_probability,
                            self.wf(),
                        decreases n - j,
                    {
                        let c = Chromosome::new(
                            &mut self.rng,
                            self.gene_nbr,
                            self.hl,
                            self.num_args,
                        );
                        fresh_chs.push(c);
                        j = j + 1;
                    }
                    self.chromosomes = fresh_chs;
                    attempts = attempts + 1;
                },
            }
        }
        if !have_first {
            // the population stayed degenerate through the whole retry
            // budget: report nothing
            return stat;
        }
        // the generational loop
        let mut i: usize = 0;
        let mut halted = false;
        while i < g && !halted
            invariant
                self.wf(),
                self.size == old(self).size,
                self.gene_nbr == old(self).gene_nbr,
                self.hl == old(self).hl,
                self.num_args == old(self).num_args,
                self.denominator == old(self).denominator,
                self.transposition_probability == old(self).transposition_probability,
                self.mutation_probability == old(self).mutation_probability,
                i <= g,
                1 <= stat@.len() <= i + 1,
                forall|q: int|
                    0 <= q < stat@.len() ==> 0 <= (#[trigger] stat@[q]).0 <= FX_SCALE && stat@[
                        q].3 < self.size,
                forall|q: int| 0 < q < stat@.len() ==> (#[trigger] stat@[q]).0 >= stat@[q - 1].0,
                !halted ==> ({
                    let l = stat@[stat@.len() - 1];
                    &&& l.0 as int == chr_fit(*fe, self.chromosomes@[l.3 as int])
                    &&& self.fitness_in_range()
                }),
            decreases g - i,
        {
            let last_idx = stat.len() - 1;
            let prev_best = stat[last_idx].3;
            let ghost pre_update = *self;
            self.update(prev_best);
            proof {
                let l = stat@[stat@.len() - 1];
                assert(self.chromosomes@[0].kinds() == pre_update.chromosomes@[
                    prev_best as int].kinds());
                assert(self.chromosomes@[0].head_size == self.hl);
                assert(pre_update.chromosomes@[prev_best as int].head_size == self.hl);
                assert(chr_fit(*fe, self.chromosomes@[0]) == l.0 as int);
            }
            let ghost pre_eval = *self;
            let r2 = self.evaluate(fe);
            match r2 {
                Option::Some(s) => {
                    proof {
                        let l = stat@[stat@.len() - 1];
                        assert(chr_fit(*fe, pre_eval.chromosomes@[0]) <= s.0 as int);
                        assert(s.0 as int == chr_fit(*fe, pre_eval.chromosomes@[s.3 as int]));
                        assert(self.chromosomes@[s.3 as int].kinds() == pre_eval.chromosomes@[
                            s.3 as int].kinds());
                        assert(self.chromosomes@[s.3 as int].head_size == self.hl);
                        assert(pre_eval.chromosomes@[s.3 as int].head_size == self.hl);
                        assert(chr_fit(*fe, self.chromosomes@[s.3 as int]) == s.0 as int);
                        assert(l.0 <= s.0);
                    }
                    let halt_now = s.0 > CONVERGENCE_THRESHOLD;
                    stat.push(s);
                    if halt_now {
                        halted = true;
                    }
                },
                Option::None => {
                    // the varied generation went degenerate: stop and
                    // report what was gathered
                    halted = true;
                },
            }
            i = i + 1;
        }
        stat
    }

    /// Roulette-select `size` parents into a new generation, mutating each
    /// when the mutation probability is positive. An empty wheel
    /// degenerates to carrying every member over unchanged.
    #[verifier::loop_isolation(false)]
    #[verifier::rlimit(100)]
    fn select_generation(&mut self) -> (next: Vec<Chromosome>)
        requires
            old(self).wf(),
            old(self).fitness_in_range(),
        ensures
            final(self).wf(),
            final(self).size == old(self).size,
            final(self).gene_nbr == old(self).gene_nbr,
            final(self).hl == old(self).hl,
            final(self).num_args == old(self).num_args,
            final(self).denominator == old(self).denominator,
            final(self).transposition_probability == old(self).transposition_probability,
            final(self).mutation_probability == old(self).mutation_probability,
            final(self).chromosomes@ == old(self).chromosomes@,
            next@.len() == old(self).size,
            forall|j: int|
                0 <= j < next@.len() ==> {
                    let c = #[trigger] next@[j];
                    &&& c.wf()
                    &&& c.head_size == old(self).hl
                    &&& c.nbr_of_genes == old(self).gene_nbr
                    &&& c.idx_below(old(self).num_args as int)
                    &&& c.fitness == 0
                },
    {
        let (wheel, wheel_ids) = self.build_roulette_wheel();
        let n = self.size;
        let mut next_generation: Vec<Chromosome> = Vec::new();
        if wheel.len() == 0 {
            // a degenerate wheel: carry the generation over unchanged
            let mut i: usize = 0;
            while i < n
                invariant
                    i <= n,
                    n == self.size,
                    self.wf(),
                    *self == *old(self),
                    next_generation@.len() == i,
                    forall|j: int|
                        0 <= j < i ==> {
                            let c = #[trigger] next_generation@[j];
                            &&& c.wf()
                            &&& c.head_size == self.hl
                            &&& c.nbr_of_genes == self.gene_nbr
                            &&& c.idx_below(self.num_args as int)
                            &&& c.fitness == 0
                        },
                decreases n - i,
            {
                next_generation.push(self.chromosomes[i].copy_to_new_generation());
                i = i + 1;
            }
        } else {
            let last = wheel[wheel.len() - 1];
            let mut i: usize = 0;
            while i < n
                invariant
                    i <= n,
                    n == self.size,
                    self.wf(),
                    self.fitness_in_range(),
                    self.chromosomes@ == old(self).chromosomes@,
                    self.size == old(self).size,
                    self.gene_nbr == old(self).gene_nbr,
                    self.hl == old(self).hl,
                    self.num_args == old(self).num_args,
                    self.denominator == old(self).denominator,
                    self.transposition_probability == old(self).transposition_probability,
                    self.mutation_probability == old(self).mutation_probability,
                    wheel@.len() == wheel_ids@.len(),
                    wheel@.len() >= 1,
                    last == wheel@[wheel@.len() - 1],
                    last > 0,
                    forall|k: int|
                        0 <= k < wheel_ids@.len() ==> (#[trigger] wheel_ids@[k]) < self.size
                            && self.chromosomes@[wheel_ids@[k] as int].fitness > FITNESS_EPSILON,
                    forall|k: int|
                        0 <= k < wheel@.len() ==> (#[trigger] wheel@[k]) as int == (if k == 0 {
                            0int
                        } else {
                            wheel@[k - 1] as int
                        }) + self.chromosomes@[wheel_ids@[k] as int].fitness,
                    next_generation@.len() == i,
                    forall|j: int|
                        0 <= j < i ==> {
                            let c = #[trigger] next_generation@[j];
                            &&& c.wf()
                            &&& c.head_size == self.hl
                            &&& c.nbr_of_genes == self.gene_nbr
                            &&& c.idx_below(self.num_args as int)
                            &&& c.fitness == 0
                        },
                decreases n - i,
            {
                let test = rand_below_wide(&mut self.rng, last as u128);
                let mut k: usize = 0;
                let mut found = false;
                let mut sel: usize = 0;
                while !found && k < wheel_ids.len()
                    invariant
                        k <= wheel_ids@.len(),
                        wheel@.len() == wheel_ids@.len(),
                        test < last as u128,
                        last == wheel@[wheel@.len() - 1],
                        forall|k2: int|
                            0 <= k2 < wheel_ids@.len() ==> (#[trigger] wheel_ids@[k2]) < self.size
                                && self.chromosomes@[wheel_ids@[k2] as int].fitness
                                > FITNESS_EPSILON,
                        forall|k2: int|
                            0 <= k2 < wheel@.len() ==> (#[trigger] wheel@[k2]) as int == (if k2
                                == 0 {
                                0int
                            } else {
                                wheel@[k2 - 1] as int
                            }) + self.chromosomes@[wheel_ids@[k2] as int].fitness,
                        !found ==> forall|k2: int|
                            0 <= k2 < k ==> (#[trigger] wheel@[k2]) as int <= test as int,
                        found ==> sel < self.size && self.chromosomes@[sel as int].fitness
                            > FITNESS_EPSILON,
                    decreases wheel_ids@.len() - k, (if found {
                        0int
                    } else {
                        1int
                    }),
                {
                    if test < wheel[k] as u128 {
                        sel = wheel_ids[k];
                        found = true;
                    } else {
                        proof {
                            assert(wheel@[k as int] as int <= test as int);
                        }
                        k = k + 1;
                    }
                }
                proof {
                    if !found {
                        assert(wheel@[wheel@.len() - 1] as int <= test as int);
                        assert(false);
                    }
                }
                let c = if self.mutation_probability > 0 {
                    let rng_local = &mut self.rng;
                    let parent = &self.chromosomes[sel];
                    parent.mutation(rng_local, self.num_args, self.mutation_probability)
                } else {
                    self.chromosomes[sel].copy_to_new_generation()
                };
                next_generation.push(c);
                i = i + 1;
            }
        }
        next_generation
    }

    /// Produce the next generation: roulette selection of `size` parents
    /// (mutated when the mutation probability is positive), root
    /// transposition of every member, two-point crossover of consecutive
    /// pairs, and elitism - slot 0 is overwritten with an unmutated copy
    /// of the previous generation's best individual.
    #[verifier::loop_isolation(false)]
    #[verifier::rlimit(100)]
    pub fn update(&mut self, best_id: usize)
        requires
            old(self).wf(),
            old(self).fitness_in_range(),
            best_id < old(self).size,
        ensures
            final(self).wf(),
            final(self).size == old(self).size,
            final(self).gene_nbr == old(self).gene_nbr,
            final(self).hl == old(self).hl,
            final(self).num_args == old(self).num_args,
            final(self).denominator == old(self).denominator,
            final(self).transposition_probability == old(self).transposition_probability,
            final(self).mutation_probability == old(self).mutation_probability,
            final(self).chromosomes@[0].kinds() == old(self).chromosomes@[
                best_id as int].kinds(),
            forall|j: int|
                0 <= j < final(self).chromosomes@.len()
                    ==> (#[trigger] final(self).chromosomes@[j]).fitness == 0,
    {
        let mut next_generation = self.select_generation();
        let n = self.size;
        // root transposition, each member rolling its own trigger
        let mut i: usize = 0;
        while i < n
            invariant
                i <= n,
                n == self.size,
                self.wf(),
                self.chromosomes@ == old(self).chromosomes@,
                self.size == old(self).size,
                self.gene_nbr == old(self).gene_nbr,
                self.hl == old(self).hl,
                self.num_args == old(self).num_args,
                self.denominator == old(self).denominator,
                self.transposition_probability == old(self).transposition_probability,
                self.mutation_probability == old(self).mutation_probability,
                next_generation@.len() == n,
                forall|j: int|
                    0 <= j < n ==> {
                        let c = #[trigger] next_generation@[j];
                        &&& c.wf()
                        &&& c.head_size == self.hl
                        &&& c.nbr_of_genes == self.gene_nbr
                        &&& c.idx_below(self.num_args as int)
                        &&& c.fitness == 0
                    },
            decreases n - i,
        {
            if self.transposition_probability > 0 {
                let mut c = next_generation.remove(i);
                c.root_transposition(&mut self.rng, self.transposition_probability);
                proof {
                    assert(c.idx_below(self.num_args as int));
                }
                next_generation.insert(i, c);
            }
            i = i + 1;
        }
        // two-point crossover over consecutive pairs
        let mut i2: usize = 0;
        while i2 < n - 1
            invariant
                n == self.size,
                self.wf(),
                self.chromosomes@ == old(self).chromosomes@,
                self.size == old(self).size,
                self.gene_nbr == old(self).gene_nbr,
                self.hl == old(self).hl,
                self.num_args == old(self).num_args,
                self.denominator == old(self).denominator,
                self.transposition_probability == old(self).transposition_probability,
                self.mutation_probability == old(self).mutation_probability,
                next_generation@.len() == n,
                forall|j: int|
                    0 <= j < n ==> {
                        let c = #[trigger] next_generation@[j];
                        &&& c.wf()
                        &&& c.head_size == self.hl
                        &&& c.nbr_of_genes == self.gene_nbr
                        &&& c.idx_below(self.num_args as int)
                        &&& c.fitness == 0
                    },
            decreases n - i2,
        {
            proof {
                let a = next_generation@[i2 as int];
                let b = next_generation@[i2 as int + 1];
                let z = next_generation@[0];
                assert(a.codons@.len() == a.nbr_of_genes * a.glen());
                assert(b.codons@.len() == b.nbr_of_genes * b.glen());
                assert(z.codons@.len() == z.nbr_of_genes * z.glen());
            }
            let ghost pre_cross = next_generation@;
            Chromosome::two_points_crossover(&mut next_generation, i2, i2 + 1, &mut self.rng);
            proof {
                assert forall|j: int| 0 <= j < n implies {
                    let c = #[trigger] next_generation@[j];
                    &&& c.wf()
                    &&& c.head_size == self.hl
                    &&& c.nbr_of_genes == self.gene_nbr
                    &&& c.idx_below(self.num_args as int)
                    &&& c.fitness == 0
                } by {
                    if j == i2 as int || j == i2 as int + 1 {
                        let s_e = choose|s: int, e: int|
                            #[trigger] crate::chromosome::swapped(
                                pre_cross[i2 as int],
                                pre_cross[i2 as int + 1],
                                next_generation@[i2 as int],
                                next_generation@[i2 as int + 1],
                                s,
                                e,
                            );
                        assert(crate::chromosome::swapped(
                            pre_cross[i2 as int],
                            pre_cross[i2 as int + 1],
                            next_generation@[i2 as int],
                            next_generation@[i2 as int + 1],
                            s_e.0,
                            s_e.1,
                        ));
                        let c = next_generation@[j];
                        assert forall|p: int|
                            0 <= p < c.kinds().len() implies ((#[trigger] c.kinds()[p])
                                matches crate::codons::CodonKind::Term { idx } ==> 0 <= idx
                                < self.num_args as int) by {
                            assert(c.kinds()[p] == c.cvs()[p].kind);
                            assert(pre_cross[i2 as int].idx_below(self.num_args as int));
                            assert(pre_cross[i2 as int + 1].idx_below(self.num_args as int));
                            assert(pre_cross[i2 as int].kinds()[p] == pre_cross[i2 as int].cvs()[
                                p].kind);
                            assert(pre_cross[i2 as int + 1].kinds()[p] == pre_cross[i2 as int
                                + 1].cvs()[p].kind);
                        }
                    } else {
                        assert(next_generation@[j] == pre_cross[j]);
                    }
                }
            }
            i2 = i2 + 2;
        }
        // elitism: slot 0 is the previous generation's best, unmutated
        let elite = self.chromosomes[best_id].copy_to_new_generation();
        let ghost elite_snap = elite;
        next_generation.set(0, elite);
        proof {
            assert forall|p2: int|
                0 <= p2 < old(self).chromosomes@[best_id as int].codons@.len() implies
                elite_snap.kinds()[p2] == old(self).chromosomes@[best_id as int].kinds()[p2] by {
                assert(elite_snap.cvs()[p2] == crate::codons::reset_v(
                    old(self).chromosomes@[best_id as int].cvs()[p2],
                ));
            }
            assert(elite_snap.kinds() =~= old(self).chromosomes@[best_id as int].kinds());
        }
        self.chromosomes = next_generation;
    }
}

} // verus!
