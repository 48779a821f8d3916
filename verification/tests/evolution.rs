use gep2::chromosome::Chromosome;
use gep2::codons::Codon;
use gep2::fitness_evaluator::FitnessFunction;
use gep2::functions::{fregistry, Function};
use gep2::fx::{FITNESS_EPSILON, FX_SCALE};
use gep2::population::Population;
use gep2::rng::fresh_rng;
use gep2::terminal::Terminal;

const S: i64 = FX_SCALE;

/// A fixed one-gene chromosome: `Min(args[0], args[1 % na])`, built by hand.
fn min_chromosome() -> Chromosome {
    let reg = fregistry();
    Chromosome {
        head_size: 1,
        nbr_of_genes: 1,
        codons: vec![
            Codon::Function(Function::new(reg[0])),
            Codon::Terminal(Terminal::new(0)),
            Codon::Terminal(Terminal::new(0)),
        ],
        fitness: 0,
    }
}

/// A fixed one-gene chromosome: `Neg(args[0])`.
fn neg_chromosome() -> Chromosome {
    let reg = fregistry();
    Chromosome {
        head_size: 1,
        nbr_of_genes: 1,
        codons: vec![
            Codon::Function(Function::new(reg[3])),
            Codon::Terminal(Terminal::new(0)),
            Codon::Terminal(Terminal::new(0)),
        ],
        fitness: 0,
    }
}

fn simple_evaluator() -> FitnessFunction {
    // four rows of one feature (+1), all targets +1, split in the middle
    FitnessFunction::new(
        vec![vec![S], vec![S], vec![S], vec![S]],
        vec![S, S, S, S],
        S / 2,
    )
    .unwrap()
}

/// Structural validity of a chromosome, checked from outside: gene roots
/// are never terminals, tails are terminals.
fn assert_valid(c: &Chromosome) {
    let glen = 2 * c.head_size + 1;
    assert_eq!(c.codons.len(), c.nbr_of_genes * glen);
    for g in 0..c.nbr_of_genes {
        assert!(!c.codons[g * glen].is_terminal());
        for j in (g * glen + c.head_size)..((g + 1) * glen) {
            assert!(matches!(&c.codons[j], Codon::Terminal(_)));
        }
    }
}

#[test]
fn invariants_after_operators_test() {
    let mut rng = fresh_rng();
    for _ in 0..25 {
        let mut c = Chromosome::new(&mut rng, 3, 4, 2);
        assert_valid(&c);
        let m = c.mutation(&mut rng, 2, 300_000);
        assert_valid(&m);
        c.root_transposition(&mut rng, FX_SCALE);
        assert_valid(&c);
        let mut pair = vec![
            Chromosome::new(&mut rng, 3, 4, 2),
            Chromosome::new(&mut rng, 3, 4, 2),
        ];
        Chromosome::two_points_crossover(&mut pair, 0, 1, &mut rng);
        assert_valid(&pair[0]);
        assert_valid(&pair[1]);
    }
}

#[test]
fn get_fitness_function_windows_test() {
    let deltas = vec![S, -S, 2 * S, S];
    let ff = gep2::fitness_evaluator::get_fitness_function(deltas, 1, S / 2).unwrap();
    assert_eq!(ff.data_table.rows, 3);
    assert_eq!(ff.data_table.cols, 1);
    assert_eq!(ff.data_table.args, vec![vec![S], vec![-S], vec![S]]);
    assert_eq!(ff.data_table.results, vec![-S, 2 * S, S]);
    assert_eq!(ff.end_of_train_data, 1);
}

#[test]
fn get_fitness_function_rejects_short_series_test() {
    assert!(gep2::fitness_evaluator::get_fitness_function(vec![S, -S], 2, S / 2).is_none());
}

#[test]
fn equity_deterministic_test() {
    let fe = simple_evaluator();
    let mut c = min_chromosome();
    let first = c.equity(true, &fe);
    let second = c.equity(true, &fe);
    assert_eq!(first, second);
}

#[test]
fn equity_exact_test() {
    let fe = simple_evaluator();
    let mut c = min_chromosome();
    // Min(1, 1) = 1 -> signal +1 each row, target +1: cumulative 1, 2
    assert_eq!(c.equity(true, &fe), vec![S as i128, (2 * S) as i128]);
    assert_eq!(c.equity(false, &fe), vec![S as i128, (2 * S) as i128]);
}

#[test]
fn fitness_perfect_test() {
    let fe = simple_evaluator();
    let mut c = min_chromosome();
    assert_eq!(c.pass(&fe), S);
    assert_eq!(c.fitness, S);
}

#[test]
fn fitness_zero_when_score_nonpositive_test() {
    let fe = simple_evaluator();
    let mut c = neg_chromosome();
    // Neg(1) = -1 -> signal -1, targets +1: score negative, fitness 0
    let f = c.pass(&fe);
    assert_eq!(f, 0);
    assert!(f >= 0);
}

#[test]
fn k_string_test() {
    let c = min_chromosome();
    assert_eq!(c.k_string(), "Maj |Min| |0| |0|");
    let mut rng = fresh_rng();
    let two = Chromosome::new(&mut rng, 2, 1, 1);
    let ks = two.k_string();
    assert!(ks.starts_with("Maj"));
    assert!(ks.contains(" //"));
}

#[test]
fn mutation_rate_zero_copies_test() {
    let mut rng = fresh_rng();
    let c = min_chromosome();
    let m = c.mutation(&mut rng, 1, 0);
    assert_eq!(m.k_string(), c.k_string());
    assert_eq!(m.fitness, 0);
}

#[test]
fn transposition_rate_zero_is_noop_test() {
    let mut rng = fresh_rng();
    let mut c = min_chromosome();
    let before = c.k_string();
    c.root_transposition(&mut rng, 0);
    assert_eq!(c.k_string(), before);
}

#[test]
fn crossover_identical_is_noop_test() {
    // two chromosomes with identical genomes and no cached state
    let mut rng = fresh_rng();
    let a = min_chromosome();
    let b = min_chromosome();
    let before = a.k_string();
    let mut pair = vec![a, b];
    for _ in 0..16 {
        Chromosome::two_points_crossover(&mut pair, 0, 1, &mut rng);
        assert_eq!(pair[0].k_string(), before);
        assert_eq!(pair[1].k_string(), before);
    }
}

#[test]
fn roulette_excludes_low_fitness_test() {
    let mut p = Population::new(4, 1, 1, 1, 0, 0);
    p.chromosomes[0].fitness = FITNESS_EPSILON; // exactly epsilon: excluded
    p.chromosomes[1].fitness = 500_000;
    p.chromosomes[2].fitness = 0; // excluded
    p.chromosomes[3].fitness = 499_900;
    let (wheel, ids) = p.build_roulette_wheel();
    assert_eq!(ids, vec![1, 3]);
    assert_eq!(wheel, vec![500_000i128, 999_900i128]);
    for k in &ids {
        assert!(p.chromosomes[*k].fitness > FITNESS_EPSILON);
    }
}

#[test]
fn update_resets_fitness_test() {
    let mut p = Population::new(4, 1, 1, 1, 300_000, 200_000);
    for c in p.chromosomes.iter_mut() {
        c.fitness = 400_000;
    }
    p.update(0);
    assert_eq!(p.chromosomes.len(), 4);
    for c in &p.chromosomes {
        assert_eq!(c.fitness, 0);
        assert!(c.head_size == 1 && c.nbr_of_genes == 1);
    }
}

#[test]
fn population_clamps_parameters_test() {
    let p = Population::new(0, 0, 0, 0, 2 * S, 2 * S);
    assert_eq!(p.size, 2);
    assert_eq!(p.gene_nbr, 1);
    assert_eq!(p.hl, 1);
    assert_eq!(p.num_args, 1);
    assert_eq!(p.chromosomes.len(), 2);
}

#[test]
fn search_scenario_test() {
    // a population of 2, one gene, head length 1, one feature, one
    // generation: exactly two stat entries, with the best fitness never
    // decreasing thanks to elitism
    let fe = simple_evaluator();
    let mut p = Population::new(2, 1, 1, 1, 300_000, 200_000);
    let stat = p.search(&fe, 1);
    assert_eq!(stat.len(), 2);
    assert!(stat[1].0 >= stat[0].0);
    for entry in &stat {
        assert!(entry.0 >= 0 && entry.0 <= S);
        assert!(entry.3 < p.size);
        assert!(entry.2.starts_with("Maj"));
    }
}

#[test]
fn evaluate_normalizes_test() {
    let fe = simple_evaluator();
    let mut p = Population::new(2, 1, 1, 1, 0, 0);
    let mut guard = 0;
    loop {
        if let Some((mf, avg, ks, ii)) = p.evaluate(&fe) {
            assert!(mf >= 0 && mf <= S);
            assert!(avg >= 0 && avg <= S);
            assert!(ii < 2);
            assert!(ks.starts_with("Maj"));
            let total: i64 = p.chromosomes.iter().map(|c| c.fitness).sum();
            assert!(total <= S);
            assert!(total >= S - 2); // rounding loses at most one per member
            break;
        }
        p = Population::new(2, 1, 1, 1, 0, 0);
        guard += 1;
        assert!(guard < 10_000);
    }
}
