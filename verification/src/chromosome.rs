//! The linear genome: a fixed-length codon sequence partitioned into genes,
//! each gene into head and tail, together with its translation into
//! expression trees and the structure-preserving genetic operators.
//!
//! Translation follows classical Karva decoding: a first pass allocates each
//! codon's argument slots breadth-first from the linear sequence, a second
//! pass evaluates the tree rooted at the gene's first codon. The wiring is a
//! pure function of the codon kinds, which the spec functions below capture.

use vstd::prelude::*;
use crate::codons::{Codon, CodonKind, CodonV, kind_arity, kind_is_terminal};
use crate::fitness_evaluator::FitnessFunction;
use crate::fx::FX_SCALE;
use crate::functions::{FN_NUM, Function, fregistry, op_arity, op_spec};
use crate::fx::{clamp_unit_spec, sign_unit_spec};
use crate::rng::rand_index;
use crate::state_functions::{SFN_NUM, StateFunction, sfregistry, sop_spec};
use crate::terminal::Terminal;

verus! {

/// Root codon of gene `g` in a raw codon sequence consumes arguments.
pub open spec fn gene_root_ok_raw(cs: Seq<Codon>, gl: int, g: int) -> bool {
    kind_arity(cs[g * gl]@.kind) > 0
}

/// Tail codons of gene `g` in a raw codon sequence are feature terminals.
pub open spec fn gene_tail_ok_raw(cs: Seq<Codon>, gl: int, hl: int, g: int) -> bool {
    forall|j: int|
        g * gl + hl <= j < (g + 1) * gl ==> (#[trigger] cs[j])@.kind matches CodonKind::Term { .. }
}

/// The first `g` genes of a raw codon sequence are structurally valid.
pub open spec fn genes_ok_raw(cs: Seq<Codon>, gl: int, hl: int, g: int) -> bool {
    forall|gg: int|
        0 <= gg < g ==> #[trigger] gene_root_ok_raw(cs, gl, gg) && gene_tail_ok_raw(cs, gl, hl, gg)
}

/// Every feature terminal in a raw codon sequence references a feature
/// below `na`, and every memory cell is 0.
pub open spec fn codons_fresh_raw(cs: Seq<Codon>, na: int) -> bool {
    forall|p: int|
        0 <= p < cs.len() ==> ((#[trigger] cs[p])@.kind matches CodonKind::Term { idx } ==> 0 <= idx
            < na) && cs[p]@.buf == 0
}

/// Every codon of a mutated sequence is either a fresh one whose terminal
/// index (if any) lies below `na`, or keeps the identity the parent had
/// at the same position.
pub open spec fn mut_idx_ok(cs: Seq<Codon>, orig: Seq<CodonKind>, na: int) -> bool {
    forall|p: int|
        0 <= p < cs.len() ==> ((#[trigger] cs[p])@.kind matches CodonKind::Term { idx } ==> (0 <= idx
            < na || (p < orig.len() && cs[p]@.kind == orig[p])))
}

/// One slot of a mutated genome, against the parent's slot: either the
/// codon identity (kind and symbol) is the parent's, or it is a freshly
/// sampled feature terminal referencing a feature below `na`, or a freshly
/// sampled non-terminal.
pub open spec fn mut_slot_ok(parent: CodonV, v: CodonV, na: int) -> bool {
    ||| (v.kind == parent.kind && v.sym == parent.sym)
    ||| (v.kind matches CodonKind::Term { idx } && 0 <= idx < na)
    ||| kind_arity(v.kind) > 0
}

/// The outcome of a two-point crossover between `a` and `b` with cut points
/// `s ..= e`: inside the cut each chromosome carries a state-reset copy of
/// the other's codon, outside it its own codon unchanged.
pub open spec fn swapped(
    a: Chromosome,
    b: Chromosome,
    a2: Chromosome,
    b2: Chromosome,
    s: int,
    e: int,
) -> bool {
    &&& 0 <= s <= e < a.codons@.len()
    &&& a2.head_size == a.head_size && a2.nbr_of_genes == a.nbr_of_genes && a2.fitness
        == a.fitness
    &&& b2.head_size == b.head_size && b2.nbr_of_genes == b.nbr_of_genes && b2.fitness
        == b.fitness
    &&& a2.codons@.len() == a.codons@.len() && b2.codons@.len() == b.codons@.len()
    &&& forall|p: int|
        0 <= p < a.codons@.len() ==> (#[trigger] a2.cvs()[p]) == if s <= p <= e {
            crate::codons::reset_v(b.cvs()[p])
        } else {
            a.cvs()[p]
        }
    &&& forall|p: int|
        0 <= p < b.codons@.len() ==> (#[trigger] b2.cvs()[p]) == if s <= p <= e {
            crate::codons::reset_v(a.cvs()[p])
        } else {
            b.cvs()[p]
        }
}

/// The outcome of one applied root transposition from `a` to `b`: a run of
/// `cnt` codons beginning at a non-terminal at `sp` was copied, state
/// reset, onto the start of gene `tg`; the run never exceeds one head, so
/// nothing outside that gene's first `head_size` positions changes.
pub open spec fn transposed(a: Chromosome, b: Chromosome, tg: int, sp: int, cnt: int) -> bool {
    let ip = tg * a.glen();
    &&& b.head_size == a.head_size
    &&& b.nbr_of_genes == a.nbr_of_genes
    &&& b.fitness == a.fitness
    &&& b.codons@.len() == a.codons@.len()
    &&& 0 <= tg < a.nbr_of_genes
    &&& 1 <= cnt <= a.head_size
    &&& 0 <= sp
    &&& sp + cnt <= a.codons@.len()
    &&& kind_arity(a.cvs()[sp].kind) > 0
    &&& forall|p: int|
        0 <= p < a.cvs().len() && !(ip <= p < ip + cnt) ==> (#[trigger] b.cvs()[p]) == a.cvs()[p]
    &&& forall|p: int|
        ip <= p < ip + cnt ==> (#[trigger] b.cvs()[p]) == crate::codons::reset_v(
            a.cvs()[p - ip + sp],
        )
}

/// No codon of the chromosome carries cached translation state or memory:
/// resetting every codon would change nothing.
pub open spec fn fully_reset(c: Chromosome) -> bool {
    forall|p: int|
        0 <= p < c.cvs().len() ==> crate::codons::reset_v(#[trigger] c.cvs()[p]) == c.cvs()[p]
}

/// Crossing two chromosomes of identical genome over leaves both genomes
/// unchanged, whatever the cut points: every codon keeps its identity and
/// symbol; and when neither chromosome carried any cached translation or
/// memory state, both are left entirely unchanged.
pub proof fn lemma_crossover_identical(
    a: Chromosome,
    b: Chromosome,
    a2: Chromosome,
    b2: Chromosome,
    s: int,
    e: int,
)
    requires
        swapped(a, b, a2, b2, s, e),
        a.cvs() == b.cvs(),
    ensures
        forall|p: int|
            0 <= p < a.codons@.len() ==> (#[trigger] a2.cvs()[p]).kind == a.cvs()[p].kind
                && a2.cvs()[p].sym == a.cvs()[p].sym,
        forall|p: int|
            0 <= p < b.codons@.len() ==> (#[trigger] b2.cvs()[p]).kind == b.cvs()[p].kind
                && b2.cvs()[p].sym == b.cvs()[p].sym,
        fully_reset(a) ==> a2.cvs() == a.cvs() && b2.cvs() == b.cvs(),
{
    assert forall|p: int|
        0 <= p < a.codons@.len() implies (#[trigger] a2.cvs()[p]).kind == a.cvs()[p].kind
            && a2.cvs()[p].sym == a.cvs()[p].sym by {
        assert(a2.cvs()[p] == if s <= p <= e {
            crate::codons::reset_v(b.cvs()[p])
        } else {
            a.cvs()[p]
        });
    }
    assert forall|p: int|
        0 <= p < b.codons@.len() implies (#[trigger] b2.cvs()[p]).kind == b.cvs()[p].kind
            && b2.cvs()[p].sym == b.cvs()[p].sym by {
        assert(b2.cvs()[p] == if s <= p <= e {
            crate::codons::reset_v(a.cvs()[p])
        } else {
            b.cvs()[p]
        });
    }
    if fully_reset(a) {
        assert forall|p: int|
            0 <= p < a.codons@.len() implies (#[trigger] a2.cvs()[p]) == a.cvs()[p] by {
            assert(crate::codons::reset_v(a.cvs()[p]) == a.cvs()[p]);
        }
        assert forall|p: int|
            0 <= p < b.codons@.len() implies (#[trigger] b2.cvs()[p]) == b.cvs()[p] by {
            assert(crate::codons::reset_v(a.cvs()[p]) == a.cvs()[p]);
        }
        assert(a2.cvs() =~= a.cvs());
        assert(b2.cvs() =~= b.cvs());
    }
}

/// A chromosome: `nbr_of_genes` genes of `2 * head_size + 1` codons each,
/// plus the fitness score written by the evaluator.
pub struct Chromosome {
    pub head_size: usize,
    pub nbr_of_genes: usize,
    pub codons: Vec<Codon>,
    pub fitness: i64,
}

/// Slot of the first argument of the codon at `pos`, under breadth-first
/// allocation started at `start`: the cursor begins at `start + 1` and
/// advances by the arity of every earlier codon.
pub open spec fn fap_of(kinds: Seq<CodonKind>, start: int, pos: int) -> int
    decreases pos - start,
        when start <= pos
{
    if pos <= start {
        start + 1
    } else {
        fap_of(kinds, start, pos - 1) + kind_arity(kinds[pos - 1])
    }
}

/// The saturation point of the allocation walk from `pos`: the first
/// position whose argument cursor has caught up with it, capped at `end`.
pub open spec fn sat_from(kinds: Seq<CodonKind>, start: int, end: int, pos: int) -> int
    decreases end - pos,
        when pos <= end
{
    if pos >= end {
        end
    } else if fap_of(kinds, start, pos) <= pos {
        pos
    } else {
        sat_from(kinds, start, end, pos + 1)
    }
}

/// The saturation point of the gene spanning `[start, end)`: one past the
/// last codon the decoded tree can reach.
pub open spec fn gene_k(kinds: Seq<CodonKind>, start: int, end: int) -> int {
    sat_from(kinds, start, end, start)
}

/// The wiring facts evaluation rests on: every position below `k` has its
/// argument slots strictly after it and entirely below `k`.
pub open spec fn wired(kinds: Seq<CodonKind>, start: int, k: int) -> bool {
    forall|p: int|
        start <= p < k ==> p < #[trigger] fap_of(kinds, start, p) && fap_of(kinds, start, p)
            + kind_arity(kinds[p]) <= k
}

/// Index bounds for gene `g` of `gn` genes of length `gl` each.
pub proof fn lemma_gene_bounds(gn: int, gl: int, g: int)
    requires
        0 <= g < gn,
        gl >= 1,
    ensures
        0 <= g * gl,
        g * gl + gl == (g + 1) * gl,
        (g + 1) * gl <= gn * gl,
        g * gl < gn * gl,
{
    assert(0 <= g * gl) by (nonlinear_arith)
        requires
            g >= 0,
            gl >= 0,
    ;
    assert((g + 1) * gl <= gn * gl) by (nonlinear_arith)
        requires
            g + 1 <= gn,
            gl >= 0,
    ;
    assert(g * gl + gl == (g + 1) * gl) by (nonlinear_arith);
    assert(g * gl < g * gl + gl) by (nonlinear_arith)
        requires
            gl >= 1,
    ;
}

/// Two chromosomes with the same codon vector and shape satisfy the same
/// structural predicates, whatever their fitness fields hold.
pub proof fn lemma_struct_twin(a: Chromosome, b: Chromosome)
    requires
        b.codons@ == a.codons@,
        b.head_size == a.head_size,
        b.nbr_of_genes == a.nbr_of_genes,
    ensures
        b.cvs() == a.cvs(),
        b.kinds() == a.kinds(),
        b.glen() == a.glen(),
        a.wf() ==> b.wf(),
        a.ready() ==> b.ready(),
        forall|na: int| a.idx_below(na) ==> #[trigger] b.idx_below(na),
{
    assert(b.cvs() =~= a.cvs());
    assert(b.kinds() =~= a.kinds());
    if a.wf() {
        assert forall|g: int| 0 <= g < b.nbr_of_genes implies #[trigger] b.gene_root_ok(g) by {
            assert(a.gene_root_ok(g));
        }
        assert forall|g: int| 0 <= g < b.nbr_of_genes implies #[trigger] b.gene_tail_ok(g) by {
            assert(a.gene_tail_ok(g));
            assert forall|j: int|
                g * b.glen() + b.head_size <= j < (g + 1) * b.glen() implies (
                #[trigger] b.kinds()[j]) matches CodonKind::Term { .. } by {
                assert(a.kinds()[j] matches CodonKind::Term { .. });
            }
        }
        assert(b.bufs_ok());
        assert(b.wf());
    }
    if a.ready() {
        assert forall|g: int| 0 <= g < b.nbr_of_genes implies #[trigger] b.gene_wired_in(g) by {
            assert(a.gene_wired_in(g));
            let s2 = g * b.glen();
            let kk = gene_k(b.kinds(), s2, s2 + b.glen());
            assert forall|q: int|
                s2 <= q < kk && kind_arity(#[trigger] b.kinds()[q]) > 0 implies b.cvs()[q].fap
                == fap_of(b.kinds(), s2, q) by {
                assert(a.cvs()[q].fap == fap_of(a.kinds(), s2, q));
            }
        }
    }
    assert forall|na: int| a.idx_below(na) implies #[trigger] b.idx_below(na) by {
        if a.idx_below(na) {
            assert forall|p: int|
                0 <= p < b.kinds().len() implies ((#[trigger] b.kinds()[p])
                    matches CodonKind::Term { idx } ==> 0 <= idx < na) by {
                assert(a.kinds()[p] == b.kinds()[p]);
            }
        }
    }
}

/// One gene never outgrows the genome.
pub proof fn lemma_genome_holds_gene(ng: int, gl: int)
    requires
        ng >= 1,
        gl >= 0,
    ensures
        gl <= ng * gl,
{
    assert(gl <= ng * gl) by (nonlinear_arith)
        requires
            ng >= 1,
            gl >= 0,
    ;
}

/// The argument cursor never moves backwards.
pub proof fn lemma_fap_mono(kinds: Seq<CodonKind>, start: int, p: int, q: int)
    requires
        start <= p <= q,
    ensures
        fap_of(kinds, start, p) <= fap_of(kinds, start, q),
    decreases q - p,
{
    if p < q {
        lemma_fap_mono(kinds, start, p, q - 1);
        assert(kind_arity(kinds[q - 1]) >= 0);
    }
}

/// Inside a gene whose tail consumes nothing, the cursor is bounded by the
/// classical head/tail sizing: it can never leave the gene.
pub proof fn lemma_fap_gene_bound(kinds: Seq<CodonKind>, start: int, head: int, p: int)
    requires
        head >= 1,
        start <= p <= start + 2 * head + 1,
        forall|j: int|
            start + head <= j < start + 2 * head + 1 ==> kind_arity(#[trigger] kinds[j]) == 0,
    ensures
        fap_of(kinds, start, p) <= if p <= start + head {
            start + 1 + 2 * (p - start)
        } else {
            start + 1 + 2 * head
        },
    decreases p - start,
{
    if p > start {
        lemma_fap_gene_bound(kinds, start, head, p - 1);
        assert(kind_arity(kinds[p - 1]) <= 2);
    }
}

/// Every position the walk passes strictly precedes its argument slot, the
/// walk ends between `pos` and `end`, and if it ends before `end` the cursor
/// has caught up there.
pub proof fn lemma_sat_props(kinds: Seq<CodonKind>, start: int, end: int, pos: int)
    requires
        start <= pos <= end,
        forall|q: int| start <= q < pos ==> q < #[trigger] fap_of(kinds, start, q),
    ensures
        pos <= sat_from(kinds, start, end, pos) <= end,
        forall|q: int|
            start <= q < sat_from(kinds, start, end, pos) ==> q < #[trigger] fap_of(
                kinds,
                start,
                q,
            ),
        sat_from(kinds, start, end, pos) < end ==> fap_of(
            kinds,
            start,
            sat_from(kinds, start, end, pos),
        ) <= sat_from(kinds, start, end, pos),
    decreases end - pos,
{
    if pos >= end {
    } else if fap_of(kinds, start, pos) <= pos {
    } else {
        lemma_sat_props(kinds, start, end, pos + 1);
    }
}

/// A structurally valid gene always yields a wired tree: its root is
/// visited, and every visited codon's argument slots stay below the
/// saturation point.
pub proof fn lemma_gene_wired(kinds: Seq<CodonKind>, start: int, head: int)
    requires
        head >= 1,
        start >= 0,
        forall|j: int|
            start + head <= j < start + 2 * head + 1 ==> kind_is_terminal(#[trigger] kinds[j]),
    ensures
        ({
            let end = start + 2 * head + 1;
            let k = gene_k(kinds, start, end);
            start < k <= end && wired(kinds, start, k)
        }),
{
    let end = start + 2 * head + 1;
    assert forall|j: int|
        start + head <= j < start + 2 * head + 1 implies kind_arity(#[trigger] kinds[j]) == 0 by {
        assert(kind_is_terminal(kinds[j]));
    }
    lemma_sat_props(kinds, start, end, start);
    let k = gene_k(kinds, start, end);
    // The root's cursor starts one past it, so the walk takes at least one step.
    assert(fap_of(kinds, start, start) == start + 1);
    lemma_sat_props(kinds, start, end, start + 1);
    assert(sat_from(kinds, start, end, start) == sat_from(kinds, start, end, start + 1));
    assert(start < k);
    assert forall|p: int|
        start <= p < k implies p < #[trigger] fap_of(kinds, start, p) && fap_of(kinds, start, p)
            + kind_arity(kinds[p]) <= k by {
        assert(fap_of(kinds, start, p + 1) == fap_of(kinds, start, p) + kind_arity(kinds[p]));
        lemma_fap_mono(kinds, start, p + 1, k);
        if k < end {
            assert(fap_of(kinds, start, k) <= k);
        } else {
            lemma_fap_gene_bound(kinds, start, head, end);
        }
    }
}

/// After a transposition that copied `count` state-reset codons from the
/// run starting at `sp` onto the head of gene `tg` (insertion point `ip`,
/// a gene root), with the run starting at a non-terminal: the chromosome
/// is still structurally valid, every codon identity is drawn from the old
/// genome, and the feature-index bound is preserved.
pub proof fn lemma_transposition_wf(
    orig: Chromosome,
    fin: Chromosome,
    ip: int,
    sp: int,
    count: int,
    tg: int,
)
    requires
        orig.wf(),
        fin.head_size == orig.head_size,
        fin.nbr_of_genes == orig.nbr_of_genes,
        fin.codons@.len() == orig.codons@.len(),
        0 <= tg < orig.nbr_of_genes,
        ip == tg * orig.glen(),
        1 <= count <= orig.head_size,
        0 <= sp,
        sp + count <= orig.codons@.len(),
        kind_arity(orig.cvs()[sp].kind) > 0,
        forall|p: int|
            0 <= p < orig.cvs().len() && !(ip <= p < ip + count) ==> (#[trigger] fin.cvs()[p])
                == orig.cvs()[p],
        forall|p: int|
            ip <= p < ip + count ==> (#[trigger] fin.cvs()[p]) == crate::codons::reset_v(
                orig.cvs()[p - ip + sp],
            ),
    ensures
        fin.wf(),
        forall|p: int|
            0 <= p < fin.cvs().len() ==> exists|q: int|
                0 <= q < orig.cvs().len() && (#[trigger] fin.cvs()[p]).kind == orig.cvs()[q].kind,
        forall|na: int| orig.idx_below(na) ==> #[trigger] fin.idx_below(na),
{
    let gl = orig.glen();
    assert forall|g: int| 0 <= g < fin.nbr_of_genes implies #[trigger] fin.gene_root_ok(g) by {
        lemma_gene_bounds(fin.nbr_of_genes as int, gl, g);
        assert(orig.gene_root_ok(g));
        if g == tg {
            assert(fin.cvs()[ip] == crate::codons::reset_v(orig.cvs()[sp]));
        } else {
            if g < tg {
                assert((g + 1) * gl <= tg * gl) by (nonlinear_arith)
                    requires
                        g + 1 <= tg,
                        gl >= 0,
                ;
            } else {
                assert((tg + 1) * gl <= g * gl) by (nonlinear_arith)
                    requires
                        tg + 1 <= g,
                        gl >= 0,
                ;
                assert(tg * gl + gl == (tg + 1) * gl) by (nonlinear_arith);
            }
            assert(!(ip <= g * gl < ip + count));
            assert(fin.cvs()[g * gl] == orig.cvs()[g * gl]);
        }
        assert(fin.kinds()[g * fin.glen()] == fin.cvs()[g * fin.glen()].kind);
        assert(orig.kinds()[g * gl] == orig.cvs()[g * gl].kind);
    }
    assert forall|g: int| 0 <= g < fin.nbr_of_genes implies #[trigger] fin.gene_tail_ok(g) by {
        lemma_gene_bounds(fin.nbr_of_genes as int, gl, g);
        assert(orig.gene_tail_ok(g));
        assert forall|j: int|
            g * fin.glen() + fin.head_size <= j < (g + 1) * fin.glen() implies (
        #[trigger] fin.kinds()[j]) matches CodonKind::Term { .. } by {
            if g != tg {
                if g < tg {
                    assert((g + 1) * gl <= tg * gl) by (nonlinear_arith)
                        requires
                            g + 1 <= tg,
                            gl >= 0,
                    ;
                } else {
                    assert((tg + 1) * gl <= g * gl) by (nonlinear_arith)
                        requires
                            tg + 1 <= g,
                            gl >= 0,
                    ;
                    assert(tg * gl + gl == (tg + 1) * gl) by (nonlinear_arith);
                }
            }
            assert(!(ip <= j < ip + count));
            assert(fin.cvs()[j] == orig.cvs()[j]);
            assert(orig.kinds()[j] matches CodonKind::Term { .. });
            assert(fin.kinds()[j] == fin.cvs()[j].kind);
            assert(orig.kinds()[j] == orig.cvs()[j].kind);
        }
    }
    assert forall|p: int|
        0 <= p < fin.cvs().len() implies -(FX_SCALE as int) <= (#[trigger] fin.cvs()[p]).buf
            <= FX_SCALE as int by {
        if ip <= p < ip + count {
        } else {
            assert(fin.cvs()[p] == orig.cvs()[p]);
        }
    }
    assert(fin.wf());
    assert forall|p: int|
        0 <= p < fin.cvs().len() implies exists|q: int|
            0 <= q < orig.cvs().len() && (#[trigger] fin.cvs()[p]).kind == orig.cvs()[q].kind by {
        if ip <= p < ip + count {
            assert(fin.cvs()[p].kind == orig.cvs()[p - ip + sp].kind);
        } else {
            assert(fin.cvs()[p].kind == orig.cvs()[p].kind);
        }
    }
    assert forall|na: int| orig.idx_below(na) implies #[trigger] fin.idx_below(na) by {
        if orig.idx_below(na) {
            assert forall|p: int|
                0 <= p < fin.kinds().len() implies ((#[trigger] fin.kinds()[p])
                    matches CodonKind::Term { idx } ==> 0 <= idx < na) by {
                assert(fin.kinds()[p] == fin.cvs()[p].kind);
                if ip <= p < ip + count {
                    assert(fin.cvs()[p].kind == orig.cvs()[p - ip + sp].kind);
                    assert(orig.kinds()[p - ip + sp] == orig.cvs()[p - ip + sp].kind);
                } else {
                    assert(fin.cvs()[p].kind == orig.cvs()[p].kind);
                    assert(orig.kinds()[p] == orig.cvs()[p].kind);
                }
            }
        }
    }
}

/// The printable token of one codon: terminals render their feature index,
/// every other codon its symbol.
pub open spec fn codon_token(v: CodonV) -> Seq<char> {
    match v.kind {
        CodonKind::Term { idx } => crate::digits::dec_digits(idx),
        _ => v.sym,
    }
}

/// The first `j` tokens of the gene starting at `start`, each wrapped in
/// the `|...|` delimiters.
pub open spec fn gene_tokens(cs: Seq<CodonV>, start: int, j: int) -> Seq<char>
    decreases j,
{
    if j <= 0 {
        Seq::empty()
    } else {
        gene_tokens(cs, start, j - 1) + " |"@ + codon_token(cs[start + j - 1]) + "|"@
    }
}

/// The symbolic rendering of the first `g` genes of a chromosome of `gn`
/// genes: the linking symbol, each gene's tokens, and a separator after
/// every gene but the last.
pub open spec fn k_string_model(cs: Seq<CodonV>, glen: int, gn: int, g: int) -> Seq<char>
    decreases g,
{
    if g <= 0 {
        "Maj"@
    } else {
        k_string_model(cs, glen, gn, g - 1) + gene_tokens(cs, (g - 1) * glen, glen) + (if g < gn {
            " //"@
        } else {
            Seq::empty()
        })
    }
}

/// The memory cells of a codon sequence, as a map from position to content.
pub open spec fn mem_of(cs: Seq<CodonV>) -> Map<int, int> {
    Map::new(|p: int| 0 <= p < cs.len(), |p: int| cs[p].buf)
}

/// What the tree rooted at `pos` evaluates to, and the memory cells after
/// that evaluation. Children are evaluated left to right, each threading
/// the memory produced by the one before; a stateful codon reads its cell
/// and then overwrites it with its child's value.
pub open spec fn eval_model(
    kinds: Seq<CodonKind>,
    mem: Map<int, int>,
    args: Seq<i64>,
    start: int,
    k: int,
    pos: int,
) -> (int, Map<int, int>)
    decreases k - pos,
        when wired(kinds, start, k) && start <= pos < k
{
    match kinds[pos] {
        CodonKind::Term { idx } => (
            if 0 <= idx < args.len() {
                clamp_unit_spec(args[idx] as int)
            } else {
                0
            },
            mem,
        ),
        CodonKind::Fb { .. } => (0, mem),
        CodonKind::SFun { sop } => {
            let sub = eval_model(kinds, mem, args, start, k, fap_of(kinds, start, pos));
            (sop_spec(sop, sub.0, sub.1[pos]), sub.1.insert(pos, sub.0))
        },
        CodonKind::Fun { op } => {
            if op_arity(op) == 1 {
                let sub = eval_model(kinds, mem, args, start, k, fap_of(kinds, start, pos));
                (op_spec(op, sub.0, 0), sub.1)
            } else {
                let sub1 = eval_model(kinds, mem, args, start, k, fap_of(kinds, start, pos));
                let sub2 = eval_model(
                    kinds,
                    sub1.1,
                    args,
                    start,
                    k,
                    fap_of(kinds, start, pos) + 1,
                );
                (op_spec(op, sub1.0, sub2.0), sub2.1)
            }
        },
    }
}

/// The per-gene outputs of the first `g` genes, summed, threading the
/// memory cells left to right through the genes.
pub open spec fn genes_model(
    kinds: Seq<CodonKind>,
    mem: Map<int, int>,
    args: Seq<i64>,
    glen: int,
    g: int,
) -> (int, Map<int, int>)
    decreases g,
{
    if g <= 0 {
        (0, mem)
    } else {
        let prev = genes_model(kinds, mem, args, glen, g - 1);
        let start = (g - 1) * glen;
        let sub = eval_model(kinds, prev.1, args, start, gene_k(kinds, start, start + glen), start);
        (prev.0 + sub.0, sub.1)
    }
}

/// One whole-chromosome evaluation for one feature row: the fixed linking
/// rule takes the sign of the sum of the per-gene outputs.
pub open spec fn row_model(
    kinds: Seq<CodonKind>,
    mem: Map<int, int>,
    args: Seq<i64>,
    glen: int,
    gn: int,
) -> (int, Map<int, int>) {
    let s = genes_model(kinds, mem, args, glen, gn);
    (sign_unit_spec(s.0), s.1)
}

/// Two chromosomes with the same shape, codon identities, cached argument
/// positions and symbols: they may differ only in their memory cells.
pub open spec fn same_skeleton(a: Chromosome, b: Chromosome) -> bool {
    &&& b.head_size == a.head_size
    &&& b.nbr_of_genes == a.nbr_of_genes
    &&& b.fitness == a.fitness
    &&& b.codons@.len() == a.codons@.len()
    &&& forall|p: int|
        0 <= p < a.cvs().len() ==> {
            &&& (#[trigger] b.cvs()[p]).kind == a.cvs()[p].kind
            &&& b.cvs()[p].fap == a.cvs()[p].fap
            &&& b.cvs()[p].sym == a.cvs()[p].sym
        }
}

impl Chromosome {
    /// Number of codons in one gene.
    pub open spec fn glen(self) -> int {
        2 * self.head_size + 1
    }

    /// The ghost views of all codons.
    pub open spec fn cvs(self) -> Seq<CodonV> {
        self.codons@.map(|i: int, c: Codon| c@)
    }

    /// The identity (kind) of every codon, the part of the genome the
    /// genetic operators and translation care about.
    pub open spec fn kinds(self) -> Seq<CodonKind> {
        Seq::new(self.codons@.len() as nat, |i: int| self.codons@[i]@.kind)
    }

    /// The first codon of gene `g` is never a terminal.
    pub open spec fn gene_root_ok(self, g: int) -> bool {
        !kind_is_terminal(self.kinds()[g * self.glen()])
    }

    /// Every codon in the tail of gene `g` is a feature terminal.
    pub open spec fn gene_tail_ok(self, g: int) -> bool {
        forall|j: int|
            g * self.glen() + self.head_size <= j < (g + 1) * self.glen()
                ==> (#[trigger] self.kinds()[j]) matches CodonKind::Term { .. }
    }

    /// Every memory cell holds a unit signal.
    pub open spec fn bufs_ok(self) -> bool {
        forall|p: int|
            0 <= p < self.cvs().len() ==> -(FX_SCALE as int) <= (#[trigger] self.cvs()[p]).buf
                <= FX_SCALE as int
    }

    /// Structural validity: the decodability invariant every operator
    /// preserves.
    pub open spec fn wf(self) -> bool {
        &&& self.head_size >= 1
        &&& self.nbr_of_genes >= 1
        &&& self.codons@.len() == self.nbr_of_genes * self.glen()
        &&& forall|g: int| 0 <= g < self.nbr_of_genes ==> #[trigger] self.gene_root_ok(g)
        &&& forall|g: int| 0 <= g < self.nbr_of_genes ==> #[trigger] self.gene_tail_ok(g)
        &&& self.bufs_ok()
    }

    /// Every feature terminal references a feature below `na`.
    pub open spec fn idx_below(self, na: int) -> bool {
        forall|p: int|
            0 <= p < self.kinds().len() ==> ((#[trigger] self.kinds()[p]) matches CodonKind::Term {
                idx,
            } ==> 0 <= idx < na)
    }

    /// A freshly sampled non-terminal codon: one of the pure operators or
    /// one of the stateful nodes, uniformly over the registry order.
    fn create_non_terminal(rng: &mut rand::rngs::ThreadRng) -> (c: Codon)
        ensures
            kind_arity(c@.kind) > 0,
            c@.buf == 0,
            c@.fap == 0,
    {
        let i = rand_index(rng, FN_NUM + SFN_NUM);
        if i < FN_NUM {
            let reg = fregistry();
            Codon::Function(Function::new(reg[i]))
        } else {
            let sreg = sfregistry();
            Codon::StateFunction(StateFunction::new(sreg[i - FN_NUM]))
        }
    }

    /// Sample one non-root head codon: a feature terminal with probability
    /// one in five, a non-terminal otherwise.
    fn push_head_codon(rng: &mut rand::rngs::ThreadRng, arr: &mut Vec<Codon>, na: usize)
        requires
            na >= 1,
        ensures
            final(arr)@.len() == old(arr)@.len() + 1,
            forall|j: int| 0 <= j < old(arr)@.len() ==> final(arr)@[j] == #[trigger] old(arr)@[j],
            ({
                let c = final(arr)@.last();
                &&& c@.buf == 0
                &&& (c@.kind matches CodonKind::Term { idx } ==> 0 <= idx < na)
            }),
    {
        let r = rand_index(rng, 10);
        if r < 2 {
            arr.push(Codon::Terminal(Terminal::new(rand_index(rng, na))));
        } else {
            let c = Self::create_non_terminal(rng);
            arr.push(c);
        }
    }

    /// Fill `arr` with `gn` freshly sampled structurally valid genes.
    #[verifier::loop_isolation(false)]
    fn initialize_codons(
        rng: &mut rand::rngs::ThreadRng,
        arr: &mut Vec<Codon>,
        gn: usize,
        hl: usize,
        na: usize,
    )
        requires
            old(arr)@.len() == 0,
            gn >= 1,
            hl >= 1,
            na >= 1,
            gn * (2 * hl + 1) <= usize::MAX,
        ensures
            final(arr)@.len() == gn * (2 * hl + 1),
            genes_ok_raw(final(arr)@, 2 * hl + 1, hl as int, gn as int),
            codons_fresh_raw(final(arr)@, na as int),
    {
        proof {
            assert(2 * hl + 1 <= gn * (2 * hl + 1)) by (nonlinear_arith)
                requires
                    gn >= 1,
                    hl >= 0,
            ;
        }
        let gl = 2 * hl + 1;
        let mut i: usize = 0;
        while i < gn
            invariant
                i <= gn,
                arr@.len() == i * (gl as int),
                genes_ok_raw(arr@, gl as int, hl as int, i as int),
                codons_fresh_raw(arr@, na as int),
            decreases gn - i,
        {
            proof {
                lemma_gene_bounds(gn as int, gl as int, i as int);
            }
            let ghost pre = arr@;
            let start = arr.len();
            let c = Self::create_non_terminal(rng);
            arr.push(c);
            let mut j: usize = 1;
            while j < hl
                invariant
                    1 <= j <= hl,
                    arr@.len() == start + j,
                    start == i * (gl as int),
                    arr@.subrange(0, start as int) == pre,
                    kind_arity(arr@[start as int]@.kind) > 0,
                    codons_fresh_raw(arr@, na as int),
                decreases hl - j,
            {
                let ghost mid = arr@;
                Self::push_head_codon(rng, arr, na);
                proof {
                    assert(arr@.subrange(0, start as int) =~= pre);
                    assert forall|p: int| 0 <= p < arr@.len() implies ((#[trigger] arr@[p])@.kind
                        matches CodonKind::Term { idx } ==> 0 <= idx < na) && arr@[p]@.buf
                        == 0 by {
                        if p < mid.len() {
                            assert(arr@[p] == mid[p]);
                        } else {
                            assert(arr@[p] == arr@.last());
                        }
                    }
                }
                j = j + 1;
            }
            let mut j2: usize = hl;
            while j2 < gl
                invariant
                    hl <= j2 <= gl,
                    arr@.len() == start + j2,
                    start == i * (gl as int),
                    arr@.subrange(0, start as int) == pre,
                    kind_arity(arr@[start as int]@.kind) > 0,
                    codons_fresh_raw(arr@, na as int),
                    forall|p: int|
                        start + hl <= p < start + j2 ==> (#[trigger] arr@[p])@.kind
                            matches CodonKind::Term { .. },
                decreases gl - j2,
            {
                let ghost mid = arr@;
                arr.push(Codon::Terminal(Terminal::new(rand_index(rng, na))));
                proof {
                    assert(arr@.subrange(0, start as int) =~= pre);
                    assert forall|p: int| 0 <= p < arr@.len() implies ((#[trigger] arr@[p])@.kind
                        matches CodonKind::Term { idx } ==> 0 <= idx < na) && arr@[p]@.buf
                        == 0 by {
                        if p < mid.len() {
                            assert(arr@[p] == mid[p]);
                        }
                    }
                }
                j2 = j2 + 1;
            }
            proof {
                assert forall|gg: int|
                    0 <= gg < i as int + 1 implies #[trigger] gene_root_ok_raw(
                    arr@,
                    gl as int,
                    gg,
                ) && gene_tail_ok_raw(arr@, gl as int, hl as int, gg) by {
                    assert((gg + 1) * (gl as int) == gg * (gl as int) + gl as int)
                        by (nonlinear_arith);
                    if gg < i as int {
                        assert(gene_root_ok_raw(pre, gl as int, gg));
                        assert(gene_tail_ok_raw(pre, gl as int, hl as int, gg));
                        lemma_gene_bounds(i as int, gl as int, gg);
                        assert forall|p: int|
                            gg * (gl as int) + hl <= p < (gg + 1) * (gl as int) implies (
                            #[trigger] arr@[p])@.kind matches CodonKind::Term { .. } by {
                            assert(arr@.subrange(0, start as int)[p] == arr@[p]);
                            assert(pre[p] == arr@[p]);
                        }
                        assert(arr@.subrange(0, start as int)[gg * (gl as int)] == arr@[gg * (
                        gl as int)]);
                        assert(pre[gg * (gl as int)] == arr@[gg * (gl as int)]);
                    } else {
                        assert(gg * (gl as int) == start as int) by (nonlinear_arith)
                            requires
                                gg == i as int,
                                start as int == (i as int) * (gl as int),
                        ;
                    }
                }
            }
            i = i + 1;
        }
    }

    /// Build a random structurally valid chromosome. Shape parameters below
    /// their minimum are clamped to it.
    pub fn new(
        rng: &mut rand::rngs::ThreadRng,
        gene_nbr: usize,
        head_length: usize,
        args_nbr: usize,
    ) -> (r: Chromosome)
        requires
            (if gene_nbr < 1 {
                1int
            } else {
                gene_nbr as int
            }) * (2 * (if head_length < 1 {
                1int
            } else {
                head_length as int
            }) + 1) <= usize::MAX,
        ensures
            r.wf(),
            r.head_size as int == if head_length < 1 {
                1int
            } else {
                head_length as int
            },
            r.nbr_of_genes as int == if gene_nbr < 1 {
                1int
            } else {
                gene_nbr as int
            },
            r.idx_below(
                if args_nbr < 1 {
                    1int
                } else {
                    args_nbr as int
                },
            ),
            r.fitness == 0,
    {
        let gn = if gene_nbr < 1 {
            1
        } else {
            gene_nbr
        };
        let hl = if head_length < 1 {
            1
        } else {
            head_length
        };
        let na = if args_nbr < 1 {
            1
        } else {
            args_nbr
        };
        let mut codons: Vec<Codon> = Vec::new();
        Self::initialize_codons(rng, &mut codons, gn, hl, na);
        let r = Chromosome { codons, head_size: hl, nbr_of_genes: gn, fitness: 0 };
        proof {
            assert(genes_ok_raw(r.codons@, r.glen(), r.head_size as int, gn as int));
            assert forall|g: int| 0 <= g < r.nbr_of_genes implies #[trigger] r.gene_root_ok(g) by {
                lemma_gene_bounds(gn as int, r.glen(), g);
                assert(gene_root_ok_raw(r.codons@, r.glen(), g));
                assert(r.kinds()[g * r.glen()] == r.codons@[g * r.glen()]@.kind);
            }
            assert forall|g: int| 0 <= g < r.nbr_of_genes implies #[trigger] r.gene_tail_ok(g) by {
                lemma_gene_bounds(gn as int, r.glen(), g);
                assert(gene_root_ok_raw(r.codons@, r.glen(), g));
                assert(gene_tail_ok_raw(r.codons@, r.glen(), r.head_size as int, g));
                assert forall|j: int|
                    g * r.glen() + r.head_size <= j < (g + 1) * r.glen() implies (
                    #[trigger] r.kinds()[j]) matches CodonKind::Term { .. } by {
                    assert(r.codons@[j]@.kind matches CodonKind::Term { .. });
                }
            }
            assert(r.bufs_ok());
            assert(r.wf());
        }
        r
    }

    /// A structural copy for the next generation: same codon identities,
    /// with all mutable state (argument positions, memory cells, fitness)
    /// reset.
    pub fn copy_to_new_generation(&self) -> (r: Chromosome)
        ensures
            r.head_size == self.head_size,
            r.nbr_of_genes == self.nbr_of_genes,
            r.fitness == 0,
            r.codons@.len() == self.codons@.len(),
            forall|p: int|
                0 <= p < self.cvs().len() ==> (#[trigger] r.cvs()[p]) == crate::codons::reset_v(
                    self.cvs()[p],
                ),
            self.wf() ==> r.wf(),
            forall|na: int| self.idx_below(na) ==> #[trigger] r.idx_below(na),
    {
        let len = self.codons.len();
        let mut codons: Vec<Codon> = Vec::new();
        let mut i: usize = 0;
        while i < len
            invariant
                i <= len,
                len == self.codons@.len(),
                codons@.len() == i,
                forall|p: int|
                    0 <= p < i ==> (#[trigger] codons@[p])@ == crate::codons::reset_v(
                        self.cvs()[p],
                    ),
            decreases len - i,
        {
            let c = self.codons[i].fresh_copy();
            codons.push(c);
            i = i + 1;
        }
        let r = Chromosome {
            head_size: self.head_size,
            nbr_of_genes: self.nbr_of_genes,
            codons,
            fitness: 0,
        };
        proof {
            if self.wf() {
                assert forall|g: int|
                    0 <= g < r.nbr_of_genes implies #[trigger] r.gene_root_ok(g) by {
                    lemma_gene_bounds(r.nbr_of_genes as int, r.glen(), g);
                    assert(self.gene_root_ok(g));
                    assert(r.kinds()[g * r.glen()] == self.kinds()[g * self.glen()]);
                }
                assert forall|g: int|
                    0 <= g < r.nbr_of_genes implies #[trigger] r.gene_tail_ok(g) by {
                    lemma_gene_bounds(r.nbr_of_genes as int, r.glen(), g);
                    assert(self.gene_tail_ok(g));
                    assert forall|j: int|
                        g * r.glen() + r.head_size <= j < (g + 1) * r.glen() implies (
                        #[trigger] r.kinds()[j]) matches CodonKind::Term { .. } by {
                        assert(self.kinds()[j] matches CodonKind::Term { .. });
                    }
                }
                assert(r.bufs_ok());
                assert(r.wf());
            }
            assert forall|na: int| self.idx_below(na) implies #[trigger] r.idx_below(na) by {
                if self.idx_below(na) {
                    assert forall|p: int|
                        0 <= p < r.kinds().len() implies ((#[trigger] r.kinds()[p])
                            matches CodonKind::Term { idx } ==> 0 <= idx < na) by {
                        assert(self.kinds()[p] == r.kinds()[p]);
                    }
                }
            }
        }
        r
    }

    /// The symbolic rendering of the chromosome: the linking symbol, then
    /// per gene one `|token|` per codon (terminals render their feature
    /// index), genes separated by a fixed delimiter.
    #[verifier::loop_isolation(false)]
    pub fn k_string(&self) -> (r: String)
        requires
            self.wf(),
        ensures
            r@ == k_string_model(
                self.cvs(),
                self.glen(),
                self.nbr_of_genes as int,
                self.nbr_of_genes as int,
            ),
    {
        let total_len = self.codons.len();
        proof {
            lemma_genome_holds_gene(self.nbr_of_genes as int, self.glen());
        }
        let glen = 2 * self.head_size + 1;
        let gn = self.nbr_of_genes;
        let ghost cs = self.cvs();
        let mut ret = String::from_str("Maj");
        let mut i: usize = 0;
        while i < gn
            invariant
                i <= gn,
                ret@ == k_string_model(cs, glen as int, gn as int, i as int),
            decreases gn - i,
        {
            proof {
                lemma_gene_bounds(gn as int, glen as int, i as int);
            }
            let start = i * glen;
            let mut j: usize = 0;
            while j < glen
                invariant
                    j <= glen,
                    start as int == i * (glen as int),
                    start + glen <= total_len,
                    ret@ == k_string_model(cs, glen as int, gn as int, i as int) + gene_tokens(
                        cs,
                        start as int,
                        j as int,
                    ),
                decreases glen - j,
            {
                let idx = start + j;
                ret.append(" |");
                match &self.codons[idx] {
                    Codon::Terminal(t) => {
                        crate::digits::append_dec(&mut ret, t.i);
                        proof {
                            assert(codon_token(cs[idx as int]) == crate::digits::dec_digits(
                                t.i as int,
                            ));
                        }
                    },
                    _ => {
                        let sym = self.codons[idx].get_symbol();
                        ret.append(sym);
                        proof {
                            assert(codon_token(cs[idx as int]) == cs[idx as int].sym);
                        }
                    },
                }
                ret.append("|");
                proof {
                    assert(gene_tokens(cs, start as int, j as int + 1) == gene_tokens(
                        cs,
                        start as int,
                        j as int,
                    ) + " |"@ + codon_token(cs[start as int + j]) + "|"@);
                    assert(ret@ =~= k_string_model(cs, glen as int, gn as int, i as int)
                        + gene_tokens(cs, start as int, j as int + 1));
                }
                j = j + 1;
            }
            if i + 1 < gn {
                ret.append(" //");
            }
            proof {
                assert(ret@ =~= k_string_model(cs, glen as int, gn as int, i as int + 1));
            }
            i = i + 1;
        }
        ret
    }

    /// A mutated offspring: every position is independently resampled with
    /// probability `codon_mutation_probability` (a fixed-point value in
    /// `[0, FX_SCALE]`), under the position's structural constraint — the
    /// gene root stays a non-terminal, the tail stays terminal. Unselected
    /// positions keep their codon identity; the parent is untouched and the
    /// offspring's fitness starts at 0.
    #[verifier::loop_isolation(false)]
    pub fn mutation(
        &self,
        rng: &mut rand::rngs::ThreadRng,
        args_nbr: usize,
        codon_mutation_probability: i64,
    ) -> (r: Chromosome)
        requires
            self.wf(),
            args_nbr >= 1,
        ensures
            r.wf(),
            r.head_size == self.head_size,
            r.nbr_of_genes == self.nbr_of_genes,
            r.fitness == 0,
            r.codons@.len() == self.codons@.len(),
            forall|p: int| 0 <= p < r.cvs().len() ==> (#[trigger] r.cvs()[p]).buf == 0,
            forall|p: int|
                0 <= p < r.cvs().len() ==> mut_slot_ok(
                    self.cvs()[p],
                    #[trigger] r.cvs()[p],
                    args_nbr as int,
                ),
            codon_mutation_probability <= 0 ==> forall|p: int|
                0 <= p < r.cvs().len() ==> (#[trigger] r.cvs()[p]) == crate::codons::reset_v(
                    self.cvs()[p],
                ),
            forall|na: int|
                na >= args_nbr && self.idx_below(na) ==> #[trigger] r.idx_below(na),
    {
        let ghost orig = self.kinds();
        let total_len = self.codons.len();
        proof {
            lemma_genome_holds_gene(self.nbr_of_genes as int, self.glen());
            assert(self.glen() <= total_len as int);
        }
        let glen = 2 * self.head_size + 1;
        let hl = self.head_size;
        let gn = self.nbr_of_genes;
        let mut codons: Vec<Codon> = Vec::new();
        let mut i: usize = 0;
        while i < gn
            invariant
                i <= gn,
                codons@.len() == i * (glen as int),
                genes_ok_raw(codons@, glen as int, hl as int, i as int),
                mut_idx_ok(codons@, orig, args_nbr as int),
                forall|p: int| 0 <= p < codons@.len() ==> (#[trigger] codons@[p])@.buf == 0,
                forall|p: int|
                    0 <= p < codons@.len() ==> mut_slot_ok(
                        self.cvs()[p],
                        (#[trigger] codons@[p])@,
                        args_nbr as int,
                    ),
                codon_mutation_probability <= 0 ==> forall|p: int|
                    0 <= p < codons@.len() ==> (#[trigger] codons@[p])@
                        == crate::codons::reset_v(self.cvs()[p]),
            decreases gn - i,
        {
            proof {
                lemma_gene_bounds(gn as int, glen as int, i as int);
            }
            let ghost pre = codons@;
            let start = codons.len();
            // the gene root: resample a non-terminal, or copy the parent's
            if crate::rng::rand_below_fx(rng, FX_SCALE) < codon_mutation_probability {
                codons.push(Self::create_non_terminal(rng));
            } else {
                proof {
                    assert(self.gene_root_ok(i as int));
                    assert(self.kinds()[i as int * self.glen()] == self.cvs()[start as int].kind);
                }
                codons.push(self.codons[start].fresh_copy());
            }
            let mut j: usize = 1;
            while j < hl
                invariant
                    1 <= j <= hl,
                    codons@.len() == start + j,
                    start == i * (glen as int),
                    codons@.subrange(0, start as int) == pre,
                    kind_arity(codons@[start as int]@.kind) > 0,
                    mut_idx_ok(codons@, orig, args_nbr as int),
                    forall|p: int| 0 <= p < codons@.len() ==> (#[trigger] codons@[p])@.buf == 0,
                    forall|p: int|
                        0 <= p < codons@.len() ==> mut_slot_ok(
                            self.cvs()[p],
                            (#[trigger] codons@[p])@,
                            args_nbr as int,
                        ),
                    codon_mutation_probability <= 0 ==> forall|p: int|
                        0 <= p < codons@.len() ==> (#[trigger] codons@[p])@
                            == crate::codons::reset_v(self.cvs()[p]),
                decreases hl - j,
            {
                let ghost mid = codons@;
                let pos = codons.len();
                if crate::rng::rand_below_fx(rng, FX_SCALE) < codon_mutation_probability {
                    if rand_index(rng, 10) < 2 {
                        codons.push(Codon::Terminal(Terminal::new(rand_index(rng, args_nbr))));
                    } else {
                        codons.push(Self::create_non_terminal(rng));
                    }
                } else {
                    codons.push(self.codons[pos].fresh_copy());
                }
                proof {
                    assert(codons@.subrange(0, start as int) =~= pre);
                    assert(self.cvs()[pos as int] == self.codons@[pos as int]@);
                    assert forall|p: int| 0 <= p < codons@.len() implies ((
                    #[trigger] codons@[p])@.kind matches CodonKind::Term { idx } ==> (0 <= idx
                        < args_nbr || (p < orig.len() && codons@[p]@.kind == orig[p])))
                        && codons@[p]@.buf == 0 && mut_slot_ok(
                        self.cvs()[p],
                        codons@[p]@,
                        args_nbr as int,
                    ) && (codon_mutation_probability <= 0 ==> codons@[p]@
                        == crate::codons::reset_v(self.cvs()[p])) by {
                        if p < mid.len() {
                            assert(codons@[p] == mid[p]);
                        } else {
                            assert(codons@[p] == codons@.last());
                        }
                    }
                }
                j = j + 1;
            }
            let mut j2: usize = hl;
            while j2 < glen
                invariant
                    hl <= j2 <= glen,
                    codons@.len() == start + j2,
                    start == i * (glen as int),
                    codons@.subrange(0, start as int) == pre,
                    kind_arity(codons@[start as int]@.kind) > 0,
                    mut_idx_ok(codons@, orig, args_nbr as int),
                    forall|p: int| 0 <= p < codons@.len() ==> (#[trigger] codons@[p])@.buf == 0,
                    forall|p: int|
                        0 <= p < codons@.len() ==> mut_slot_ok(
                            self.cvs()[p],
                            (#[trigger] codons@[p])@,
                            args_nbr as int,
                        ),
                    codon_mutation_probability <= 0 ==> forall|p: int|
                        0 <= p < codons@.len() ==> (#[trigger] codons@[p])@
                            == crate::codons::reset_v(self.cvs()[p]),
                    forall|p: int|
                        start + hl <= p < start + j2 ==> (#[trigger] codons@[p])@.kind
                            matches CodonKind::Term { .. },
                decreases glen - j2,
            {
                let ghost mid = codons@;
                let pos = codons.len();
                if crate::rng::rand_below_fx(rng, FX_SCALE) < codon_mutation_probability {
                    codons.push(Codon::Terminal(Terminal::new(rand_index(rng, args_nbr))));
                } else {
                    proof {
                        assert(self.gene_tail_ok(i as int));
                        assert(self.kinds()[pos as int] matches CodonKind::Term { .. });
                        assert(self.kinds()[pos as int] == self.cvs()[pos as int].kind);
                    }
                    codons.push(self.codons[pos].fresh_copy());
                }
                proof {
                    assert(codons@.subrange(0, start as int) =~= pre);
                    assert(self.cvs()[pos as int] == self.codons@[pos as int]@);
                    assert forall|p: int| 0 <= p < codons@.len() implies ((
                    #[trigger] codons@[p])@.kind matches CodonKind::Term { idx } ==> (0 <= idx
                        < args_nbr || (p < orig.len() && codons@[p]@.kind == orig[p])))
                        && codons@[p]@.buf == 0 && mut_slot_ok(
                        self.cvs()[p],
                        codons@[p]@,
                        args_nbr as int,
                    ) && (codon_mutation_probability <= 0 ==> codons@[p]@
                        == crate::codons::reset_v(self.cvs()[p])) by {
                        if p < mid.len() {
                            assert(codons@[p] == mid[p]);
                        } else {
                            assert(codons@[p] == codons@.last());
                        }
                    }
                }
                j2 = j2 + 1;
            }
            proof {
                assert forall|gg: int|
                    0 <= gg < i as int + 1 implies #[trigger] gene_root_ok_raw(
                    codons@,
                    glen as int,
                    gg,
                ) && gene_tail_ok_raw(codons@, glen as int, hl as int, gg) by {
                    assert((gg + 1) * (glen as int) == gg * (glen as int) + glen as int)
                        by (nonlinear_arith);
                    if gg < i as int {
                        assert(gene_root_ok_raw(pre, glen as int, gg));
                        assert(gene_tail_ok_raw(pre, glen as int, hl as int, gg));
                        lemma_gene_bounds(i as int, glen as int, gg);
                        assert forall|p: int|
                            gg * (glen as int) + hl <= p < (gg + 1) * (glen as int) implies (
                            #[trigger] codons@[p])@.kind matches CodonKind::Term { .. } by {
                            assert(codons@.subrange(0, start as int)[p] == codons@[p]);
                            assert(pre[p] == codons@[p]);
                        }
                        assert(codons@.subrange(0, start as int)[gg * (glen as int)] == codons@[gg
                            * (glen as int)]);
                        assert(pre[gg * (glen as int)] == codons@[gg * (glen as int)]);
                    } else {
                        assert(gg * (glen as int) == start as int) by (nonlinear_arith)
                            requires
                                gg == i as int,
                                start as int == (i as int) * (glen as int),
                        ;
                        assert(kind_arity(codons@[start as int]@.kind) > 0);
                        assert(gene_root_ok_raw(codons@, glen as int, gg));
                        assert forall|p: int|
                            gg * (glen as int) + hl <= p < (gg + 1) * (glen as int) implies (
                            #[trigger] codons@[p])@.kind matches CodonKind::Term { .. } by {
                            assert(start + hl <= p < start + glen);
                        }
                        assert(gene_tail_ok_raw(codons@, glen as int, hl as int, gg));
                    }
                }
                assert(genes_ok_raw(codons@, glen as int, hl as int, i as int + 1));
            }
            i = i + 1;
        }
        let r = Chromosome { codons, head_size: hl, nbr_of_genes: gn, fitness: 0 };
        proof {
            assert(genes_ok_raw(r.codons@, r.glen(), r.head_size as int, gn as int));
            assert forall|g: int| 0 <= g < r.nbr_of_genes implies #[trigger] r.gene_root_ok(g) by {
                lemma_gene_bounds(gn as int, r.glen(), g);
                assert(gene_root_ok_raw(r.codons@, r.glen(), g));
                assert(r.kinds()[g * r.glen()] == r.codons@[g * r.glen()]@.kind);
            }
            assert forall|g: int| 0 <= g < r.nbr_of_genes implies #[trigger] r.gene_tail_ok(g) by {
                lemma_gene_bounds(gn as int, r.glen(), g);
                assert(gene_root_ok_raw(r.codons@, r.glen(), g));
                assert(gene_tail_ok_raw(r.codons@, r.glen(), r.head_size as int, g));
                assert forall|j: int|
                    g * r.glen() + r.head_size <= j < (g + 1) * r.glen() implies (
                    #[trigger] r.kinds()[j]) matches CodonKind::Term { .. } by {
                    assert(r.codons@[j]@.kind matches CodonKind::Term { .. });
                }
            }
            assert(r.bufs_ok());
            assert(r.wf());
            assert forall|na: int|
                na >= args_nbr && self.idx_below(na) implies #[trigger] r.idx_below(na) by {
                assert forall|p: int|
                    0 <= p < r.kinds().len() implies ((#[trigger] r.kinds()[p])
                        matches CodonKind::Term { idx } ==> 0 <= idx < na) by {
                    assert(r.kinds()[p] == r.codons@[p]@.kind);
                    assert((#[trigger] r.codons@[p])@.kind matches CodonKind::Term { idx } ==> (0
                        <= idx < args_nbr || (p < orig.len() && r.codons@[p]@.kind == orig[p])));
                    assert(self.kinds()[p] matches CodonKind::Term { idx } ==> 0 <= idx < na);
                }
            }
        }
        r
    }

    /// With probability `transposition_probability`, copy a run of codons
    /// starting at a non-terminal inside a random source gene's head onto
    /// the start of a random target gene, in place. If no non-terminal is
    /// found the call is a silent no-op. The genome stays structurally
    /// valid, and every codon of the result keeps an identity the
    /// chromosome already carried.
    #[verifier::loop_isolation(false)]
    #[verifier::rlimit(100)]
    pub fn root_transposition(
        &mut self,
        rng: &mut rand::rngs::ThreadRng,
        transposition_probability: i64,
    )
        requires
            old(self).wf(),
        ensures
            final(self).wf(),
            final(self).head_size == old(self).head_size,
            final(self).nbr_of_genes == old(self).nbr_of_genes,
            final(self).fitness == old(self).fitness,
            final(self).codons@.len() == old(self).codons@.len(),
            forall|p: int|
                0 <= p < final(self).cvs().len() ==> exists|q: int|
                    0 <= q < old(self).cvs().len() && (#[trigger] final(self).cvs()[p]).kind == old(
                        self,
                    ).cvs()[q].kind,
            forall|na: int| old(self).idx_below(na) ==> #[trigger] final(self).idx_below(na),
            transposition_probability <= 0 ==> *final(self) == *old(self),
            (*final(self) == *old(self)) || exists|tg: int, sp: int, cnt: int|
                transposed(*old(self), *final(self), tg, sp, cnt),
    {
        proof {
            assert forall|p: int|
                0 <= p < old(self).cvs().len() implies exists|q: int|
                    0 <= q < old(self).cvs().len() && (#[trigger] old(self).cvs()[p]).kind == old(
                    self,
                ).cvs()[q].kind by {
                assert(old(self).cvs()[p].kind == old(self).cvs()[p].kind);
            }
        }
        let test = crate::rng::rand_below_fx(rng, FX_SCALE);
        if test >= transposition_probability {
            return ;
        }
        let total_len = self.codons.len();
        proof {
            lemma_genome_holds_gene(self.nbr_of_genes as int, self.glen());
        }
        let glen = 2 * self.head_size + 1;
        // 1) the target gene: its root is the insertion point
        let target_gene = rand_index(rng, self.nbr_of_genes);
        proof {
            lemma_gene_bounds(self.nbr_of_genes as int, glen as int, target_gene as int);
        }
        let ip = glen * target_gene;
        // 2) the source gene
        let source_gene = rand_index(rng, self.nbr_of_genes);
        proof {
            lemma_gene_bounds(self.nbr_of_genes as int, glen as int, source_gene as int);
        }
        let ss = glen * source_gene;
        // 3) a starting offset within the source head, bumped off the
        //    insertion point, then advanced to the first non-terminal
        let mut starting_point = rand_index(rng, self.head_size) + ss;
        if starting_point == ip {
            starting_point = starting_point + 1;
        }
        let se = ss + self.head_size;
        let mut found = false;
        while !found && starting_point < se
            invariant
                ss <= starting_point <= se + 1,
                *self == *old(self),
                se == ss + self.head_size,
                ss + self.head_size <= self.codons@.len(),
                ss == ip ==> starting_point > ip,
                found ==> starting_point < se && kind_arity(
                    self.cvs()[starting_point as int].kind,
                ) > 0,
            decreases se - starting_point, (if found { 0int } else { 1int }),
        {
            if self.codons[starting_point].is_terminal() {
                starting_point = starting_point + 1;
            } else {
                found = true;
            }
        }
        if !found {
            // only terminals in reach: no transposition this call
            return ;
        }
        // 4) the end point, within the head: the transposon can never be
        //    longer than one full head
        let end_point = starting_point + rand_index(rng, se - starting_point);
        // 5) copy the transposon onto the target gene's head
        let ghost orig = *self;
        let count = end_point - starting_point + 1;
        proof {
            let gl = self.glen();
            let tg = target_gene as int;
            let sg = source_gene as int;
            assert((tg + 1) * gl == tg * gl + gl) by (nonlinear_arith);
            assert((sg + 1) * gl == sg * gl + gl) by (nonlinear_arith);
            if sg < tg {
                assert((sg + 1) * gl <= tg * gl) by (nonlinear_arith)
                    requires
                        sg + 1 <= tg,
                        gl >= 0,
                ;
            } else if sg > tg {
                assert((tg + 1) * gl <= sg * gl) by (nonlinear_arith)
                    requires
                        tg + 1 <= sg,
                        gl >= 0,
                ;
            }
            if ss == ip {
                assert(starting_point > ip);
            } else if source_gene < target_gene {
                assert(starting_point + count <= ip);
            } else {
                assert(source_gene != target_gene);
                assert(starting_point > ip);
            }
            assert(starting_point > ip || starting_point + count <= ip);
        }
        self.splice_run(ip, starting_point, count);
        proof {
            lemma_transposition_wf(
                orig,
                *self,
                ip as int,
                starting_point as int,
                count as int,
                target_gene as int,
            );
            assert(transposed(
                *old(self),
                *self,
                target_gene as int,
                starting_point as int,
                count as int,
            ));
        }
    }

    /// Overwrite `count` codons starting at `ip` with state-reset copies of
    /// the run starting at `sp`; the ranges may overlap only forward (the
    /// source strictly after the destination), so every copy reads the
    /// codon as it stood before the copy began.
    fn splice_run(&mut self, ip: usize, sp: usize, count: usize)
        requires
            ip + count <= old(self).codons@.len(),
            sp + count <= old(self).codons@.len(),
            sp > ip || sp + count <= ip,
        ensures
            final(self).head_size == old(self).head_size,
            final(self).nbr_of_genes == old(self).nbr_of_genes,
            final(self).fitness == old(self).fitness,
            final(self).codons@.len() == old(self).codons@.len(),
            forall|p: int|
                0 <= p < old(self).cvs().len() && !(ip <= p < ip + count) ==> (
                #[trigger] final(self).cvs()[p]) == old(self).cvs()[p],
            forall|p: int|
                ip <= p < ip + count ==> (#[trigger] final(self).cvs()[p])
                    == crate::codons::reset_v(old(self).cvs()[p - ip + sp]),
    {
        let n = self.codons.len();
        let mut t: usize = 0;
        while t < count
            invariant
                0 <= t <= count,
                n == old(self).codons@.len(),
                ip + count <= old(self).codons@.len(),
                sp + count <= old(self).codons@.len(),
                sp > ip || sp + count <= ip,
                self.head_size == old(self).head_size,
                self.nbr_of_genes == old(self).nbr_of_genes,
                self.fitness == old(self).fitness,
                self.codons@.len() == old(self).codons@.len(),
                forall|p: int|
                    0 <= p < old(self).cvs().len() && !(ip <= p < ip + t) ==> (
                    #[trigger] self.cvs()[p]) == old(self).cvs()[p],
                forall|p: int|
                    ip <= p < ip + t ==> (#[trigger] self.cvs()[p]) == crate::codons::reset_v(
                        old(self).cvs()[p - ip + sp],
                    ),
            decreases count - t,
        {
            let src = sp + t;
            proof {
                assert(!(ip <= src as int && (src as int) < ip + t));
                assert(self.cvs()[src as int] == old(self).cvs()[src as int]);
                assert(self.codons@[src as int]@ == self.cvs()[src as int]);
            }
            let c = self.codons[src].fresh_copy();
            let ghost before = *self;
            let dst = ip + t;
            self.codons.set(dst, c);
            proof {
                assert(self.codons@ == before.codons@.update(dst as int, c));
                assert(self.cvs()[dst as int] == c@);
                assert(forall|p: int|
                    0 <= p < old(self).cvs().len() && p != dst as int ==> (
                    #[trigger] self.cvs()[p]) == before.cvs()[p]);
            }
            t = t + 1;
        }
    }

    /// Two-point crossover inside one generation: swap the codon run
    /// between two cut points (drawn uniformly over the genome, distinct,
    /// free to cross gene boundaries) between the chromosomes at `i1` and
    /// `i2`, in place.
    #[verifier::loop_isolation(false)]
    pub fn two_points_crossover(
        chrs: &mut Vec<Chromosome>,
        i1: usize,
        i2: usize,
        rng: &mut rand::rngs::ThreadRng,
    )
        requires
            i1 < i2 < old(chrs)@.len(),
            old(chrs)@[i1 as int].wf(),
            old(chrs)@[i2 as int].wf(),
            old(chrs)@[i1 as int].head_size == old(chrs)@[i2 as int].head_size,
            old(chrs)@[i1 as int].nbr_of_genes == old(chrs)@[i2 as int].nbr_of_genes,
            old(chrs)@.len() > 0,
            old(chrs)@[0].codons@.len() == old(chrs)@[i1 as int].codons@.len(),
        ensures
            final(chrs)@.len() == old(chrs)@.len(),
            forall|j: int|
                0 <= j < old(chrs)@.len() && j != i1 as int && j != i2 as int ==> (
                #[trigger] final(chrs)@[j]) == old(chrs)@[j],
            exists|s: int, e: int|
                s < e && #[trigger] swapped(
                    old(chrs)@[i1 as int],
                    old(chrs)@[i2 as int],
                    final(chrs)@[i1 as int],
                    final(chrs)@[i2 as int],
                    s,
                    e,
                ),
            final(chrs)@[i1 as int].wf(),
            final(chrs)@[i2 as int].wf(),
    {
        let len = chrs[0].codons.len();
        proof {
            let a = old(chrs)@[i1 as int];
            assert(a.glen() >= 3);
            lemma_genome_holds_gene(a.nbr_of_genes as int, a.glen());
            assert(len >= 3);
        }
        // two distinct cut points, drawn as a point and a nonzero offset
        let point1 = rand_index(rng, len);
        let offset = rand_index(rng, len - 1) + 1;
        let point2 = if point1 >= len - offset {
            point1 - (len - offset)
        } else {
            point1 + offset
        };
        proof {
            assert(point1 != point2);
        }
        let (start, end) = if point1 < point2 {
            (point1, point2)
        } else {
            (point2, point1)
        };
        let c2 = chrs.remove(i2);
        let ghost s1 = chrs@;
        let c1 = chrs.remove(i1);
        let ghost s2 = chrs@;
        let (c1, c2) = Self::swap_spans(c1, c2, start, end);
        chrs.insert(i1, c1);
        let ghost s3 = chrs@;
        chrs.insert(i2, c2);
        proof {
            assert(s1 == old(chrs)@.remove(i2 as int));
            assert(s2 == s1.remove(i1 as int));
            assert(s3 == s2.insert(i1 as int, c1));
            assert(chrs@ == s3.insert(i2 as int, c2));
            assert(chrs@.len() == old(chrs)@.len());
            assert(chrs@[i1 as int] == c1);
            assert(chrs@[i2 as int] == c2);
            assert(start < end);
            assert(swapped(
                old(chrs)@[i1 as int],
                old(chrs)@[i2 as int],
                chrs@[i1 as int],
                chrs@[i2 as int],
                start as int,
                end as int,
            ));
            assert forall|j: int|
                0 <= j < old(chrs)@.len() && j != i1 as int && j != i2 as int implies (
            #[trigger] chrs@[j]) == old(chrs)@[j] by {
                if j < i1 as int {
                    assert(chrs@[j] == s3[j]);
                    assert(s3[j] == s2[j]);
                    assert(s2[j] == s1[j]);
                    assert(s1[j] == old(chrs)@[j]);
                } else if j < i2 as int {
                    assert(chrs@[j] == s3[j]);
                    assert(s3[j] == s2[j - 1]);
                    assert(s2[j - 1] == s1[j]);
                    assert(s1[j] == old(chrs)@[j]);
                } else {
                    assert(chrs@[j] == s3[j - 1]);
                    assert(s3[j - 1] == s2[j - 2]);
                    assert(s2[j - 2] == s1[j - 1]);
                    assert(s1[j - 1] == old(chrs)@[j]);
                }
            }
        }
    }

    /// Exchange the codons in `start ..= end` between two chromosomes,
    /// state-reset, as every generational copy is.
    fn swap_spans(c1: Chromosome, c2: Chromosome, start: usize, end: usize) -> (r: (
        Chromosome,
        Chromosome,
    ))
        requires
            c1.wf(),
            c2.wf(),
            c1.head_size == c2.head_size,
            c1.nbr_of_genes == c2.nbr_of_genes,
            start <= end < c1.codons@.len(),
        ensures
            swapped(c1, c2, r.0, r.1, start as int, end as int),
            r.0.wf(),
            r.1.wf(),
    {
        let mut a = c1;
        let mut b = c2;
        let ghost a0 = a;
        let ghost b0 = b;
        let nn = a.codons.len();
        let mut i: usize = start;
        while i <= end
            invariant
                start <= i <= end + 1,
                end < a0.codons@.len(),
                nn == a0.codons@.len(),
                a.codons@.len() == a0.codons@.len(),
                b.codons@.len() == b0.codons@.len(),
                b0.codons@.len() == a0.codons@.len(),
                a.head_size == a0.head_size,
                a.nbr_of_genes == a0.nbr_of_genes,
                a.fitness == a0.fitness,
                b.head_size == b0.head_size,
                b.nbr_of_genes == b0.nbr_of_genes,
                b.fitness == b0.fitness,
                forall|p: int|
                    0 <= p < a0.codons@.len() && !(start <= p < i) ==> (#[trigger] a.cvs()[p])
                        == a0.cvs()[p],
                forall|p: int|
                    start <= p < i ==> (#[trigger] a.cvs()[p]) == crate::codons::reset_v(
                        b0.cvs()[p],
                    ),
                forall|p: int|
                    0 <= p < b0.codons@.len() && !(start <= p < i) ==> (#[trigger] b.cvs()[p])
                        == b0.cvs()[p],
                forall|p: int|
                    start <= p < i ==> (#[trigger] b.cvs()[p]) == crate::codons::reset_v(
                        a0.cvs()[p],
                    ),
            decreases end + 1 - i,
        {
            let x = b.codons[i].fresh_copy();
            let y = a.codons[i].fresh_copy();
            let ghost abefore = a;
            let ghost bbefore = b;
            proof {
                assert(abefore.cvs()[i as int] == a0.cvs()[i as int]);
                assert(bbefore.cvs()[i as int] == b0.cvs()[i as int]);
                assert(x@ == crate::codons::reset_v(bbefore.codons@[i as int]@));
                assert(bbefore.codons@[i as int]@ == bbefore.cvs()[i as int]);
                assert(y@ == crate::codons::reset_v(abefore.codons@[i as int]@));
                assert(abefore.codons@[i as int]@ == abefore.cvs()[i as int]);
            }
            a.codons.set(i, x);
            b.codons.set(i, y);
            proof {
                assert(a.codons@ == abefore.codons@.update(i as int, x));
                assert(b.codons@ == bbefore.codons@.update(i as int, y));
                assert(a.cvs()[i as int] == x@);
                assert(b.cvs()[i as int] == y@);
                assert(forall|p: int|
                    0 <= p < a0.codons@.len() && p != i as int ==> (#[trigger] a.cvs()[p])
                        == abefore.cvs()[p]);
                assert(forall|p: int|
                    0 <= p < b0.codons@.len() && p != i as int ==> (#[trigger] b.cvs()[p])
                        == bbefore.cvs()[p]);
            }
            i = i + 1;
        }
        proof {
            assert(swapped(a0, b0, a, b, start as int, end as int));
            assert forall|g: int| 0 <= g < a.nbr_of_genes implies #[trigger] a.gene_root_ok(
                g,
            ) by {
                lemma_gene_bounds(a.nbr_of_genes as int, a.glen(), g);
                assert(a0.gene_root_ok(g));
                assert(b0.gene_root_ok(g));
                assert(a.kinds()[g * a.glen()] == a.cvs()[g * a.glen()].kind);
                assert(a0.kinds()[g * a.glen()] == a0.cvs()[g * a.glen()].kind);
                assert(b0.kinds()[g * b.glen()] == b0.cvs()[g * b.glen()].kind);
            }
            assert forall|g: int| 0 <= g < b.nbr_of_genes implies #[trigger] b.gene_root_ok(
                g,
            ) by {
                lemma_gene_bounds(b.nbr_of_genes as int, b.glen(), g);
                assert(a0.gene_root_ok(g));
                assert(b0.gene_root_ok(g));
                assert(b.kinds()[g * b.glen()] == b.cvs()[g * b.glen()].kind);
                assert(a0.kinds()[g * a.glen()] == a0.cvs()[g * a.glen()].kind);
                assert(b0.kinds()[g * b.glen()] == b0.cvs()[g * b.glen()].kind);
            }
            assert forall|g: int| 0 <= g < a.nbr_of_genes implies #[trigger] a.gene_tail_ok(
                g,
            ) by {
                lemma_gene_bounds(a.nbr_of_genes as int, a.glen(), g);
                assert(a0.gene_tail_ok(g));
                assert(b0.gene_tail_ok(g));
                assert forall|j: int|
                    g * a.glen() + a.head_size <= j < (g + 1) * a.glen() implies ((
                    #[trigger] a.kinds()[j]) matches CodonKind::Term { .. }) by {
                    assert(a.kinds()[j] == a.cvs()[j].kind);
                    assert(a0.kinds()[j] matches CodonKind::Term { .. });
                    assert(b0.kinds()[j] matches CodonKind::Term { .. });
                    assert(a0.kinds()[j] == a0.cvs()[j].kind);
                    assert(b0.kinds()[j] == b0.cvs()[j].kind);
                }
            }
            assert forall|g: int| 0 <= g < b.nbr_of_genes implies #[trigger] b.gene_tail_ok(
                g,
            ) by {
                lemma_gene_bounds(b.nbr_of_genes as int, b.glen(), g);
                assert(a0.gene_tail_ok(g));
                assert(b0.gene_tail_ok(g));
                assert forall|j: int|
                    g * b.glen() + b.head_size <= j < (g + 1) * b.glen() implies ((
                    #[trigger] b.kinds()[j]) matches CodonKind::Term { .. }) by {
                    assert(b.kinds()[j] == b.cvs()[j].kind);
                    assert(a0.kinds()[j] matches CodonKind::Term { .. });
                    assert(b0.kinds()[j] matches CodonKind::Term { .. });
                    assert(a0.kinds()[j] == a0.cvs()[j].kind);
                    assert(b0.kinds()[j] == b0.cvs()[j].kind);
                }
            }
            assert forall|p: int|
                0 <= p < a.cvs().len() implies -(FX_SCALE as int) <= (#[trigger] a.cvs()[p]).buf
                    <= FX_SCALE as int && -(FX_SCALE as int) <= (#[trigger] b.cvs()[p]).buf
                    <= FX_SCALE as int by {
                if start <= p <= end {
                } else {
                    assert(a.cvs()[p] == a0.cvs()[p]);
                    assert(b.cvs()[p] == b0.cvs()[p]);
                }
            }
            assert(a.wf());
            assert(b.wf());
        }
        (a, b)
    }

    /// Compile and score this chromosome on the evaluator's training split,
    /// recording the fitness on the chromosome.
    pub fn pass(&mut self, evaluator: &FitnessFunction) -> (f: i64)
        requires
            evaluator.wf(),
            old(self).wf(),
            old(self).idx_below(evaluator.data_table.cols as int),
        ensures
            f as int == evaluator.fitness_of(
                old(self).kinds(),
                old(self).glen(),
                old(self).nbr_of_genes as int,
            ),
            0 <= f <= FX_SCALE,
            final(self).fitness == f,
            final(self).ready(),
            final(self).idx_below(evaluator.data_table.cols as int),
            final(self).head_size == old(self).head_size,
            final(self).nbr_of_genes == old(self).nbr_of_genes,
            final(self).codons@.len() == old(self).codons@.len(),
            forall|q: int|
                0 <= q < old(self).cvs().len() ==> {
                    &&& (#[trigger] final(self).cvs()[q]).kind == old(self).cvs()[q].kind
                    &&& final(self).cvs()[q].sym == old(self).cvs()[q].sym
                },
    {
        let f = evaluator.evaluate(self);
        let ghost mid = *self;
        self.fitness = f;
        proof {
            lemma_struct_twin(mid, *self);
        }
        f
    }

    /// Compile this chromosome and produce its cumulative equity curve over
    /// the chosen split of the evaluator's dataset.
    pub fn equity(&mut self, train: bool, evaluator: &FitnessFunction) -> (ret: Vec<i128>)
        requires
            evaluator.wf(),
            old(self).wf(),
            old(self).idx_below(evaluator.data_table.cols as int),
        ensures
            final(self).ready(),
            final(self).idx_below(evaluator.data_table.cols as int),
            final(self).fitness == old(self).fitness,
            final(self).head_size == old(self).head_size,
            final(self).nbr_of_genes == old(self).nbr_of_genes,
            final(self).codons@.len() == old(self).codons@.len(),
            forall|q: int|
                0 <= q < old(self).cvs().len() ==> {
                    &&& (#[trigger] final(self).cvs()[q]).kind == old(self).cvs()[q].kind
                    &&& final(self).cvs()[q].sym == old(self).cvs()[q].sym
                },
            ({
                let from = if train {
                    0int
                } else {
                    evaluator.end_of_train_data as int
                };
                let n = if train {
                    evaluator.end_of_train_data as int
                } else {
                    evaluator.data_table.rows - evaluator.end_of_train_data
                };
                let m = crate::fitness_evaluator::equity_model(
                    old(self).kinds(),
                    old(self).glen(),
                    old(self).nbr_of_genes as int,
                    crate::data_table::rows_of(evaluator.data_table.args@),
                    evaluator.data_table.results@,
                    crate::fitness_evaluator::zero_mem(old(self).codons@.len() as int),
                    from,
                    n,
                );
                ret@.len() == m.0.len() && forall|i: int|
                    0 <= i < m.0.len() ==> ret@[i] as int == m.0[i]
            }),
    {
        evaluator.equity(train, self)
    }

    /// Gene `g`'s cached argument positions agree with the breadth-first
    /// wiring, up to the gene's saturation point.
    pub open spec fn gene_wired_in(self, g: int) -> bool {
        let start = g * self.glen();
        let kk = gene_k(self.kinds(), start, start + self.glen());
        forall|q: int|
            start <= q < kk && kind_arity(#[trigger] self.kinds()[q]) > 0 ==> self.cvs()[q].fap
                == fap_of(self.kinds(), start, q)
    }

    /// The chromosome is compiled: structurally valid with every gene's
    /// argument positions cached, so rows can be evaluated.
    pub open spec fn ready(self) -> bool {
        &&& self.wf()
        &&& forall|g: int| 0 <= g < self.nbr_of_genes ==> #[trigger] self.gene_wired_in(g)
    }

    /// First translation pass over the gene starting at `p`: walk the gene
    /// left to right, handing each codon its argument slots from a cursor
    /// that starts just past the gene root and advances by each codon's
    /// arity, until the cursor is saturated.
    #[verifier::loop_isolation(false)]
    #[verifier::rlimit(50)]
    fn first_pass(&mut self, p: usize, Ghost(g): Ghost<int>)
        requires
            old(self).wf(),
            0 <= g < old(self).nbr_of_genes,
            p as int == g * old(self).glen(),
        ensures
            final(self).head_size == old(self).head_size,
            final(self).nbr_of_genes == old(self).nbr_of_genes,
            final(self).fitness == old(self).fitness,
            final(self).codons@.len() == old(self).codons@.len(),
            forall|q: int|
                0 <= q < old(self).cvs().len() ==> {
                    &&& (#[trigger] final(self).cvs()[q]).kind == old(self).cvs()[q].kind
                    &&& final(self).cvs()[q].buf == old(self).cvs()[q].buf
                    &&& final(self).cvs()[q].sym == old(self).cvs()[q].sym
                },
            forall|q: int|
                0 <= q < old(self).cvs().len() && !(p as int <= q < p as int + old(self).glen())
                    ==> final(self).cvs()[q] == old(self).cvs()[q],
            ({
                let kk = gene_k(old(self).kinds(), p as int, p as int + old(self).glen());
                &&& forall|q: int|
                    p as int <= q < kk && kind_arity(#[trigger] old(self).kinds()[q]) > 0
                        ==> final(self).cvs()[q].fap == fap_of(old(self).kinds(), p as int, q)
                &&& forall|q: int|
                    kk <= q < p as int + old(self).glen()
                        ==> final(self).cvs()[q] == old(self).cvs()[q]
            }),
    {
        let ghost kinds0 = old(self).kinds();
        let ghost head = old(self).head_size as int;
        let total_len = self.codons.len();
        let ghost end_i = p as int + old(self).glen();
        proof {
            let gl = old(self).glen();
            let ng = old(self).nbr_of_genes as int;
            lemma_genome_holds_gene(ng, gl);
            assert((g + 1) * gl <= ng * gl) by (nonlinear_arith)
                requires
                    g + 1 <= ng,
                    gl >= 0,
            ;
            assert((g + 1) * gl == g * gl + gl) by (nonlinear_arith);
            assert(end_i <= old(self).codons@.len());
            assert(old(self).gene_tail_ok(g));
            assert forall|j: int|
                p as int + head <= j < end_i implies kind_arity(#[trigger] kinds0[j]) == 0 by {
                assert(kinds0[j] matches CodonKind::Term { .. });
            }
            lemma_gene_wired(kinds0, p as int, head);
        }
        let glen = 2 * self.head_size + 1;
        let end = p + glen;
        let ghost kk = gene_k(kinds0, p as int, end as int);
        let mut pos = p;
        let mut nf = p + 1;
        while pos < nf
            invariant
                p <= pos <= nf,
                nf as int == fap_of(kinds0, p as int, pos as int),
                nf <= end,
                sat_from(kinds0, p as int, end as int, pos as int) == kk,
                forall|q: int| p as int <= q < pos ==> q < #[trigger] fap_of(kinds0, p as int, q),
                self.codons@.len() == old(self).codons@.len(),
                self.head_size == old(self).head_size,
                self.nbr_of_genes == old(self).nbr_of_genes,
                self.fitness == old(self).fitness,
                forall|q: int|
                    0 <= q < old(self).cvs().len() ==> {
                        &&& (#[trigger] self.cvs()[q]).kind == old(self).cvs()[q].kind
                        &&& self.cvs()[q].buf == old(self).cvs()[q].buf
                        &&& self.cvs()[q].sym == old(self).cvs()[q].sym
                    },
                forall|q: int|
                    0 <= q < old(self).cvs().len() && !(p as int <= q < pos as int) ==> (
                    #[trigger] self.cvs()[q]) == old(self).cvs()[q],
                forall|q: int|
                    p as int <= q < pos as int && kind_arity(#[trigger] kinds0[q]) > 0 ==> self.cvs()[q].fap
                        == fap_of(kinds0, p as int, q),
            decreases end - pos,
        {
            proof {
                assert(self.cvs()[pos as int].kind == kinds0[pos as int]);
                lemma_fap_gene_bound(kinds0, p as int, head, pos as int + 1);
            }
            let a = self.codons[pos].get_arity();
            if a > 0 {
                let replacement = match &self.codons[pos] {
                    Codon::Function(f) => Codon::Function(
                        crate::functions::Function { fd: f.fd, first_arg_position: nf },
                    ),
                    Codon::StateFunction(s) => Codon::StateFunction(
                        crate::state_functions::StateFunction {
                            fd: s.fd,
                            buf: s.buf,
                            first_arg_position: nf,
                        },
                    ),
                    _ => {
                        proof {
                            assert(false);
                        }
                        Codon::Terminal(crate::terminal::Terminal::new(0))
                    },
                };
                let ghost before = *self;
                self.codons.set(pos, replacement);
                proof {
                    assert(self.codons@ == before.codons@.update(pos as int, replacement));
                    assert(self.cvs()[pos as int].fap == nf as int);
                    assert(self.cvs()[pos as int].kind == before.cvs()[pos as int].kind);
                    assert(self.cvs()[pos as int].buf == before.cvs()[pos as int].buf);
                    assert(self.cvs()[pos as int].sym == before.cvs()[pos as int].sym);
                    assert(forall|q: int|
                        0 <= q < old(self).cvs().len() && q != pos as int ==> (
                        #[trigger] self.cvs()[q]) == before.cvs()[q]);
                }
            }
            proof {
                assert(fap_of(kinds0, p as int, pos as int + 1) == nf as int + kind_arity(
                    kinds0[pos as int],
                ));
                assert(nf as int + a as int <= end as int);
            }
            nf = nf + a as usize;
            pos = pos + 1;
        }
        proof {
            assert(fap_of(kinds0, p as int, pos as int) <= pos as int);
            assert(sat_from(kinds0, p as int, end as int, pos as int) == pos as int);
            assert(kk == pos as int);
        }
    }

    /// Compile the chromosome: reset every codon's mutable state (memory
    /// cells back to the neutral value 0) and cache every gene's argument
    /// positions. Never fails for a structurally valid chromosome.
    #[verifier::loop_isolation(false)]
    pub fn translate(&mut self)
        requires
            old(self).wf(),
        ensures
            final(self).ready(),
            final(self).head_size == old(self).head_size,
            final(self).nbr_of_genes == old(self).nbr_of_genes,
            final(self).fitness == old(self).fitness,
            final(self).codons@.len() == old(self).codons@.len(),
            forall|q: int|
                0 <= q < old(self).cvs().len() ==> {
                    &&& (#[trigger] final(self).cvs()[q]).kind == old(self).cvs()[q].kind
                    &&& final(self).cvs()[q].sym == old(self).cvs()[q].sym
                    &&& final(self).cvs()[q].buf == 0
                },
    {
        let ghost kinds0 = old(self).kinds();
        let n = self.codons.len();
        let mut q: usize = 0;
        while q < n
            invariant
                q <= n,
                self.codons@.len() == n as int,
                self.head_size == old(self).head_size,
                self.nbr_of_genes == old(self).nbr_of_genes,
                self.fitness == old(self).fitness,
                forall|j: int|
                    0 <= j < n ==> {
                        &&& (#[trigger] self.cvs()[j]).kind == old(self).cvs()[j].kind
                        &&& self.cvs()[j].sym == old(self).cvs()[j].sym
                    },
                forall|j: int| 0 <= j < q ==> (#[trigger] self.cvs()[j]).buf == 0,
                forall|j: int| 0 <= j < q ==> (#[trigger] self.cvs()[j]).fap == 0,
                forall|j: int| q <= j < n ==> (#[trigger] self.cvs()[j]) == old(self).cvs()[j],
            decreases n - q,
        {
            let ghost before = *self;
            let c = self.codons[q].fresh_copy();
            self.codons.set(q, c);
            proof {
                assert(self.codons@ == before.codons@.update(q as int, c));
                assert(self.cvs()[q as int] == c@);
                assert(before.cvs()[q as int] == old(self).cvs()[q as int]);
                assert(forall|j: int|
                    0 <= j < n && j != q as int ==> (#[trigger] self.cvs()[j]) == before.cvs()[j]);
            }
            q = q + 1;
        }
        proof {
            assert forall|i: int| 0 <= i < n implies self.kinds()[i] == kinds0[i] by {
                assert(self.cvs()[i].kind == old(self).cvs()[i].kind);
            }
            assert(self.kinds() =~= kinds0);
            assert forall|g: int| 0 <= g < self.nbr_of_genes implies #[trigger] self.gene_root_ok(
                g,
            ) by {
                assert(old(self).gene_root_ok(g));
            }
            assert forall|g: int| 0 <= g < self.nbr_of_genes implies #[trigger] self.gene_tail_ok(
                g,
            ) by {
                assert(old(self).gene_tail_ok(g));
                assert forall|j: int|
                    g * self.glen() + self.head_size <= j < (g + 1) * self.glen() implies (
                    #[trigger] self.kinds()[j]) matches CodonKind::Term { .. } by {
                    assert(old(self).kinds()[j] matches CodonKind::Term { .. });
                }
            }
            assert(self.codons@.len() == self.nbr_of_genes * self.glen());
            assert(self.bufs_ok());
            assert(self.wf());
            lemma_genome_holds_gene(self.nbr_of_genes as int, self.glen());
            assert(2 * self.head_size + 1 <= n as int);
        }
        let ghost reset_state = *self;
        let glen = 2 * self.head_size + 1;
        let mut g: usize = 0;
        while g < self.nbr_of_genes
            invariant
                g <= self.nbr_of_genes,
                self.codons@.len() == n as int,
                self.head_size == old(self).head_size,
                self.nbr_of_genes == old(self).nbr_of_genes,
                self.fitness == old(self).fitness,
                glen as int == self.glen(),
                forall|j: int|
                    0 <= j < n ==> {
                        &&& (#[trigger] self.cvs()[j]).kind == old(self).cvs()[j].kind
                        &&& self.cvs()[j].sym == old(self).cvs()[j].sym
                        &&& self.cvs()[j].buf == 0
                    },
                forall|j: int|
                    g as int * glen as int <= j < n ==> (#[trigger] self.cvs()[j])
                        == reset_state.cvs()[j],
                self.wf(),
                forall|gg: int| 0 <= gg < g ==> #[trigger] self.gene_wired_in(gg),
            decreases self.nbr_of_genes - g,
        {
            proof {
                lemma_gene_bounds(self.nbr_of_genes as int, glen as int, g as int);
            }
            let start = g * glen;
            let ghost pre = *self;
            self.first_pass(start, Ghost(g as int));
            proof {
                assert forall|i: int| 0 <= i < n implies self.kinds()[i] == pre.kinds()[i] by {
                    assert(self.cvs()[i].kind == pre.cvs()[i].kind);
                }
                assert(self.kinds() =~= pre.kinds());
                assert forall|gg: int| 0 <= gg < g + 1 implies #[trigger] self.gene_wired_in(
                    gg,
                ) by {
                    let s2 = gg * self.glen();
                    let kk = gene_k(self.kinds(), s2, s2 + self.glen());
                    if gg < g {
                        assert(pre.gene_wired_in(gg));
                        lemma_sat_props(self.kinds(), s2, s2 + self.glen(), s2);
                        lemma_gene_bounds(g as int, glen as int, gg);
                        assert forall|q2: int|
                            s2 <= q2 < kk && kind_arity(#[trigger] self.kinds()[q2]) > 0 implies self.cvs()[q2].fap
                            == fap_of(self.kinds(), s2, q2) by {
                            assert(kk <= s2 + self.glen());
                            assert(self.cvs()[q2] == pre.cvs()[q2]);
                        }
                    } else {
                        assert forall|q2: int|
                            s2 <= q2 < kk && kind_arity(#[trigger] self.kinds()[q2]) > 0 implies self.cvs()[q2].fap
                            == fap_of(self.kinds(), s2, q2) by {
                        }
                    }
                }
                assert forall|gg: int|
                    0 <= gg < self.nbr_of_genes implies #[trigger] self.gene_root_ok(gg) by {
                    assert(pre.gene_root_ok(gg));
                }
                assert forall|gg: int|
                    0 <= gg < self.nbr_of_genes implies #[trigger] self.gene_tail_ok(gg) by {
                    assert(pre.gene_tail_ok(gg));
                    assert forall|j: int|
                        gg * self.glen() + self.head_size <= j < (gg + 1) * self.glen() implies (
                        #[trigger] self.kinds()[j]) matches CodonKind::Term { .. } by {
                        assert(pre.kinds()[j] matches CodonKind::Term { .. });
                    }
                }
                assert forall|j: int| 0 <= j < n implies {
                    &&& (#[trigger] self.cvs()[j]).buf == 0
                    &&& self.cvs()[j].kind == old(self).cvs()[j].kind
                    &&& self.cvs()[j].sym == old(self).cvs()[j].sym
                } by {
                    assert(self.cvs()[j].buf == pre.cvs()[j].buf);
                    assert(self.cvs()[j].kind == pre.cvs()[j].kind);
                    assert(self.cvs()[j].sym == pre.cvs()[j].sym);
                }
                assert(self.bufs_ok());
                assert(self.codons@.len() == self.nbr_of_genes * self.glen());
                assert(self.wf());
            }
            g = g + 1;
        }
    }

    /// Evaluate the compiled chromosome on one feature row: every gene's
    /// tree is evaluated left to right (threading the memory cells), and
    /// the fixed linking rule returns the sign of the sum of the gene
    /// outputs as a whole signal unit.
    #[verifier::loop_isolation(false)]
    pub fn eval_row(&mut self, args: &Vec<i64>) -> (r: i64)
        requires
            old(self).ready(),
            old(self).idx_below(args@.len() as int),
        ensures
            final(self).ready(),
            final(self).idx_below(args@.len() as int),
            final(self).head_size == old(self).head_size,
            final(self).nbr_of_genes == old(self).nbr_of_genes,
            final(self).fitness == old(self).fitness,
            final(self).codons@.len() == old(self).codons@.len(),
            forall|q: int|
                0 <= q < old(self).cvs().len() ==> {
                    &&& (#[trigger] final(self).cvs()[q]).kind == old(self).cvs()[q].kind
                    &&& final(self).cvs()[q].fap == old(self).cvs()[q].fap
                    &&& final(self).cvs()[q].sym == old(self).cvs()[q].sym
                },
            ({
                let m = row_model(
                    old(self).kinds(),
                    mem_of(old(self).cvs()),
                    args@,
                    old(self).glen(),
                    old(self).nbr_of_genes as int,
                );
                r == m.0 && mem_of(final(self).cvs()) == m.1
            }),
            r == FX_SCALE || r == 0 || r == -(FX_SCALE as int),
    {
        let ghost kinds0 = old(self).kinds();
        let ghost mem0 = mem_of(old(self).cvs());
        let n = self.codons.len();
        proof {
            lemma_genome_holds_gene(self.nbr_of_genes as int, self.glen());
        }
        let glen = 2 * self.head_size + 1;
        let mut total: i128 = 0;
        let mut g: usize = 0;
        while g < self.nbr_of_genes
            invariant
                g <= self.nbr_of_genes,
                self.codons@.len() == n as int,
                self.head_size == old(self).head_size,
                self.nbr_of_genes == old(self).nbr_of_genes,
                self.fitness == old(self).fitness,
                glen as int == self.glen(),
                forall|q: int|
                    0 <= q < n ==> {
                        &&& (#[trigger] self.cvs()[q]).kind == old(self).cvs()[q].kind
                        &&& self.cvs()[q].fap == old(self).cvs()[q].fap
                        &&& self.cvs()[q].sym == old(self).cvs()[q].sym
                    },
                self.bufs_ok(),
                total as int == genes_model(kinds0, mem0, args@, glen as int, g as int).0,
                mem_of(self.cvs()) == genes_model(kinds0, mem0, args@, glen as int, g as int).1,
                -(g as int) * (FX_SCALE as int) <= total as int <= (g as int) * (FX_SCALE as int),
            decreases self.nbr_of_genes - g,
        {
            proof {
                lemma_gene_bounds(self.nbr_of_genes as int, glen as int, g as int);
            }
            let start = g * glen;
            proof {
                assert forall|i: int| 0 <= i < n implies self.kinds()[i] == kinds0[i] by {
                    assert(self.cvs()[i].kind == old(self).cvs()[i].kind);
                }
                assert(self.kinds() =~= kinds0);
                assert(old(self).gene_tail_ok(g as int));
                assert forall|j: int|
                    start as int + self.head_size <= j < start as int + glen implies
                    kind_is_terminal(#[trigger] kinds0[j]) by {
                    assert(kinds0[j] matches CodonKind::Term { .. });
                }
                lemma_gene_wired(kinds0, start as int, self.head_size as int);
                assert(old(self).gene_wired_in(g as int));
            }
            let ghost kk = gene_k(kinds0, start as int, start as int + glen as int);
            proof {
                assert forall|p: int|
                    start as int <= p < kk && kind_arity(#[trigger] self.kinds()[p]) > 0 implies
                    self.cvs()[p].fap == fap_of(self.kinds(), start as int, p) by {
                    assert(old(self).cvs()[p].fap == fap_of(kinds0, start as int, p));
                }
                assert forall|p: int|
                    start as int <= p < kk implies ((#[trigger] self.kinds()[p])
                        matches CodonKind::Term { idx } ==> 0 <= idx < args@.len()) by {
                    assert(old(self).idx_below(args@.len() as int));
                    assert(old(self).kinds()[p] == self.kinds()[p]);
                }
            }
            let ghost prev_mem = mem_of(self.cvs());
            let v = self.second_pass(start, args, Ghost(start as int), Ghost(kk));
            proof {
                let gm = genes_model(kinds0, mem0, args@, glen as int, g as int + 1);
                let sub = eval_model(
                    kinds0,
                    prev_mem,
                    args@,
                    start as int,
                    gene_k(kinds0, start as int, start as int + glen as int),
                    start as int,
                );
                assert(gm.0 == total as int + sub.0 && gm.1 == sub.1);
                assert(v as int == sub.0 && mem_of(self.cvs()) == sub.1);
            }
            total = total + v as i128;
            g = g + 1;
        }
        let r = if total > 0 {
            FX_SCALE
        } else if total < 0 {
            -FX_SCALE
        } else {
            0
        };
        proof {
            let m = row_model(kinds0, mem0, args@, old(self).glen(), old(self).nbr_of_genes as int);
            assert(r as int == m.0);
            assert(mem_of(self.cvs()) == m.1);
            assert forall|i: int| 0 <= i < n implies self.kinds()[i] == kinds0[i] by {
                assert(self.cvs()[i].kind == old(self).cvs()[i].kind);
            }
            assert(self.kinds() =~= kinds0);
            assert forall|gg: int|
                0 <= gg < self.nbr_of_genes implies #[trigger] self.gene_root_ok(gg) by {
                assert(old(self).gene_root_ok(gg));
            }
            assert forall|gg: int|
                0 <= gg < self.nbr_of_genes implies #[trigger] self.gene_tail_ok(gg) by {
                assert(old(self).gene_tail_ok(gg));
                assert forall|j: int|
                    gg * self.glen() + self.head_size <= j < (gg + 1) * self.glen() implies (
                    #[trigger] self.kinds()[j]) matches CodonKind::Term { .. } by {
                    assert(old(self).kinds()[j] matches CodonKind::Term { .. });
                }
            }
            assert(self.wf());
            assert forall|gg: int|
                0 <= gg < self.nbr_of_genes implies #[trigger] self.gene_wired_in(gg) by {
                assert(old(self).gene_wired_in(gg));
                let s2 = gg * self.glen();
                let kk2 = gene_k(self.kinds(), s2, s2 + self.glen());
                assert forall|q2: int|
                    s2 <= q2 < kk2 && kind_arity(#[trigger] self.kinds()[q2]) > 0 implies
                    self.cvs()[q2].fap == fap_of(self.kinds(), s2, q2) by {
                    lemma_sat_props(self.kinds(), s2, s2 + self.glen(), s2);
                    lemma_gene_bounds(self.nbr_of_genes as int, self.glen(), gg);
                    assert(0 <= q2 < n);
                    assert(old(self).cvs()[q2].fap == fap_of(kinds0, s2, q2));
                }
            }
            assert(self.ready());
        }
        r
    }

    /// Recursively evaluate the tree rooted at `pos`, following the cached
    /// argument positions written by the first translation pass.
    fn second_pass(&mut self, pos: usize, args: &Vec<i64>, Ghost(start): Ghost<int>, Ghost(
        k,
    ): Ghost<int>) -> (r: i64)
        requires
            0 <= start,
            start <= pos < k,
            k <= old(self).codons@.len(),
            wired(old(self).kinds(), start, k),
            forall|p: int|
                start <= p < k && kind_arity(#[trigger] old(self).kinds()[p]) > 0 ==> old(
                    self,
                ).cvs()[p].fap == fap_of(old(self).kinds(), start, p),
            forall|p: int|
                start <= p < k ==> ((#[trigger] old(self).kinds()[p]) matches CodonKind::Term {
                    idx,
                } ==> 0 <= idx < args@.len()),
            old(self).bufs_ok(),
        ensures
            same_skeleton(*old(self), *final(self)),
            final(self).bufs_ok(),
            -(FX_SCALE as int) <= r <= FX_SCALE as int,
            ({
                let m = eval_model(
                    old(self).kinds(),
                    mem_of(old(self).cvs()),
                    args@,
                    start,
                    k,
                    pos as int,
                );
                r == m.0 && mem_of(final(self).cvs()) == m.1
            }),
        decreases k - pos,
    {
        let ghost kinds0 = old(self).kinds();
        let ghost mem0 = mem_of(old(self).cvs());
        let ghost model = eval_model(kinds0, mem0, args@, start, k, pos as int);
        let arity = self.codons[pos].get_arity();
        proof {
            assert(kinds0[pos as int] == self.codons@[pos as int]@.kind);
        }
        if arity == 0 {
            let r = match &self.codons[pos] {
                Codon::Terminal(t) => t.eval(args),
                Codon::Feedback(_) => 0,
                _ => {
                    proof {
                        assert(false);
                    }
                    0
                },
            };
            proof {
                assert(mem_of(self.cvs()) =~= mem0);
            }
            r
        } else if arity == 1 {
            let fap = self.codons[pos].get_first_arg_position();
            proof {
                assert(fap as int == fap_of(kinds0, start, pos as int));
                assert(start <= fap < k);
            }
            let ghost sub = eval_model(kinds0, mem0, args@, start, k, fap as int);
            let x = self.second_pass(fap, args, Ghost(start), Ghost(k));
            let ghost mid = *self;
            proof {
                assert forall|i: int| 0 <= i < mid.codons@.len() implies mid.kinds()[i]
                    == kinds0[i] by {
                    assert(mid.cvs()[i].kind == old(self).cvs()[i].kind);
                }
                assert(mid.kinds() =~= kinds0);
                assert(x == sub.0 && mem_of(mid.cvs()) == sub.1);
            }
            match &self.codons[pos] {
                Codon::StateFunction(s) => {
                    let fd = s.fd;
                    let prev = s.buf;
                    let fp = s.first_arg_position;
                    proof {
                        assert(mid.cvs()[pos as int].buf == prev as int);
                        assert(prev as int == mem_of(mid.cvs())[pos as int]);
                        assert(mid.bufs_ok());
                        assert(-(FX_SCALE as int) <= prev <= FX_SCALE as int);
                        assert(kinds0[pos as int] == CodonKind::SFun { sop: fd.op });
                    }
                    let r = crate::state_functions::apply_sop(fd.op, x, prev);
                    let replacement = Codon::StateFunction(
                        crate::state_functions::StateFunction {
                            fd,
                            buf: x,
                            first_arg_position: fp,
                        },
                    );
                    self.codons.set(pos, replacement);
                    proof {
                        assert(self.codons@ == mid.codons@.update(pos as int, replacement));
                        assert forall|p: int| 0 <= p < old(self).cvs().len() implies {
                            &&& (#[trigger] self.cvs()[p]).kind == old(self).cvs()[p].kind
                            &&& self.cvs()[p].fap == old(self).cvs()[p].fap
                            &&& self.cvs()[p].sym == old(self).cvs()[p].sym
                            &&& -(FX_SCALE as int) <= self.cvs()[p].buf <= FX_SCALE as int
                        } by {
                            if p == pos as int {
                                assert(self.cvs()[p] == replacement@);
                                assert(mid.cvs()[p].kind == old(self).cvs()[p].kind);
                                assert(mid.cvs()[p].fap == old(self).cvs()[p].fap);
                                assert(mid.cvs()[p].sym == old(self).cvs()[p].sym);
                            } else {
                                assert(self.cvs()[p] == mid.cvs()[p]);
                                assert(mid.cvs()[p].kind == old(self).cvs()[p].kind);
                                assert(mid.cvs()[p].fap == old(self).cvs()[p].fap);
                                assert(mid.cvs()[p].sym == old(self).cvs()[p].sym);
                            }
                        }
                        assert(mem_of(self.cvs()) =~= sub.1.insert(pos as int, sub.0));
                        assert(r == model.0);
                    }
                    r
                },
                Codon::Function(f) => {
                    let op = f.fd.op;
                    let r = crate::functions::apply_op(op, x, 0);
                    proof {
                        assert(kinds0[pos as int] == CodonKind::Fun { op });
                        assert(op_arity(op) == 1);
                        assert(r == model.0);
                        assert(mem_of(self.cvs()) == model.1);
                    }
                    r
                },
                _ => {
                    proof {
                        assert(false);
                    }
                    0
                },
            }
        } else {
            let fap = self.codons[pos].get_first_arg_position();
            proof {
                assert(fap as int == fap_of(kinds0, start, pos as int));
                assert(kind_arity(kinds0[pos as int]) == 2);
                assert(start <= fap && fap as int + 1 < k);
            }
            let ghost sub1 = eval_model(kinds0, mem0, args@, start, k, fap as int);
            let x = self.second_pass(fap, args, Ghost(start), Ghost(k));
            let ghost mid1 = *self;
            proof {
                assert forall|i: int| 0 <= i < mid1.codons@.len() implies mid1.kinds()[i]
                    == kinds0[i] by {
                    assert(mid1.cvs()[i].kind == old(self).cvs()[i].kind);
                }
                assert(mid1.kinds() =~= kinds0);
                assert(x == sub1.0 && mem_of(mid1.cvs()) == sub1.1);
            }
            let len_now = self.codons.len();
            proof {
                assert(fap as int + 1 < k && k <= len_now as int);
            }
            let ghost sub2 = eval_model(kinds0, sub1.1, args@, start, k, fap as int + 1);
            let y = self.second_pass(fap + 1, args, Ghost(start), Ghost(k));
            let ghost mid2 = *self;
            proof {
                assert forall|i: int| 0 <= i < mid2.codons@.len() implies mid2.kinds()[i]
                    == kinds0[i] by {
                    assert(mid2.cvs()[i].kind == mid1.cvs()[i].kind);
                    assert(mid1.cvs()[i].kind == old(self).cvs()[i].kind);
                }
                assert(mid2.kinds() =~= kinds0);
                assert(y == sub2.0 && mem_of(mid2.cvs()) == sub2.1);
                assert forall|p: int| 0 <= p < old(self).cvs().len() implies {
                    &&& (#[trigger] mid2.cvs()[p]).kind == old(self).cvs()[p].kind
                    &&& mid2.cvs()[p].fap == old(self).cvs()[p].fap
                    &&& mid2.cvs()[p].sym == old(self).cvs()[p].sym
                } by {
                    assert(mid1.cvs()[p].kind == old(self).cvs()[p].kind);
                    assert(mid1.cvs()[p].fap == old(self).cvs()[p].fap);
                    assert(mid1.cvs()[p].sym == old(self).cvs()[p].sym);
                }
            }
            match &self.codons[pos] {
                Codon::Function(f) => {
                    let op = f.fd.op;
                    let r = crate::functions::apply_op(op, x, y);
                    proof {
                        assert(kinds0[pos as int] == CodonKind::Fun { op });
                        assert(op_arity(op) == 2);
                        assert(r == model.0);
                        assert(mem_of(self.cvs()) == model.1);
                    }
                    r
                },
                _ => {
                    proof {
                        assert(false);
                    }
                    0
                },
            }
        }
    }
}

} // verus!
