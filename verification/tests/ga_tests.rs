use evosim::chromosome::Chromosome;
use evosim::crossover::Crossover;
use evosim::crossover::UniformCrossover;
use evosim::ga::GeneticAlgorithm;
use evosim::individual::Individual;
use evosim::individual::TestIndividual;
use evosim::mutation::GaussianMutation;
use evosim::mutation::Mutation;
use evosim::selection::RankSelection;
use evosim::selection::RouletteSelection;
use evosim::selection::Selection;
use evosim::selection::TournamentSelection;
use evosim::statistics::Statistics;
use rand::SeedableRng;
use rand_chacha::ChaCha8Rng;

const UNIT: i64 = 1_000_000;

fn histogram_population() -> Vec<TestIndividual> {
    vec![
        TestIndividual::new(1_000_000),
        TestIndividual::new(2_000_000),
        TestIndividual::new(3_000_000),
        TestIndividual::new(4_000_000),
    ]
}

fn assert_monotonic_histogram(counts: [u32; 4]) {
    let total: u32 = counts[0] + counts[1] + counts[2] + counts[3];
    assert_eq!(total, 1000);
    // the relative frequency must grow with fitness
    assert!(counts[0] < counts[1]);
    assert!(counts[1] < counts[2]);
    assert!(counts[2] < counts[3]);
}

#[test]
fn test_selection() {
    let mut rng = ChaCha8Rng::from_seed(Default::default());
    let population = histogram_population();
    let mut counts: [u32; 4] = [0, 0, 0, 0];
    let mut draw: usize = 0;
    while draw < 1000 {
        let chosen = RouletteSelection.select(&mut rng, &population);
        counts[chosen] += 1;
        draw += 1;
    }
    assert_monotonic_histogram(counts);
}

#[test]
fn test_roulette() {
    let mut rng = ChaCha8Rng::from_seed(Default::default());
    let population = histogram_population();
    let mut counts: [u32; 4] = [0, 0, 0, 0];
    let mut draw: usize = 0;
    while draw < 1000 {
        let chosen = Selection::Roulette.select(&mut rng, &population);
        counts[chosen] += 1;
        draw += 1;
    }
    assert_monotonic_histogram(counts);
}

#[test]
fn test_rank() {
    let mut rng = ChaCha8Rng::from_seed(Default::default());
    let population = histogram_population();
    let mut counts: [u32; 4] = [0, 0, 0, 0];
    let mut draw: usize = 0;
    while draw < 1000 {
        let chosen = Selection::Rank.select(&mut rng, &population);
        counts[chosen] += 1;
        draw += 1;
    }
    assert_monotonic_histogram(counts);
}

#[test]
fn test_tournament() {
    let mut rng = ChaCha8Rng::from_seed(Default::default());
    let population = histogram_population();
    let mut counts: [u32; 4] = [0, 0, 0, 0];
    let mut draw: usize = 0;
    while draw < 1000 {
        let chosen = Selection::Tournament.select(&mut rng, &population);
        counts[chosen] += 1;
        draw += 1;
    }
    assert_monotonic_histogram(counts);
}

#[test]
fn ranks_share_scores_on_ties() {
    let population = vec![
        TestIndividual::new(2_000_000),
        TestIndividual::new(1_000_000),
        TestIndividual::new(2_000_000),
        TestIndividual::new(3_000_000),
    ];
    // both middle-fitness members beat exactly one other member
    assert_eq!(RankSelection::ranks(&population), vec![2, 1, 2, 4]);
}

#[test]
fn roulette_never_picks_zero_fitness() {
    let mut rng = ChaCha8Rng::seed_from_u64(3);
    let population = vec![
        TestIndividual::new(0),
        TestIndividual::new(1),
        TestIndividual::new(0),
    ];
    let mut draw: usize = 0;
    while draw < 200 {
        assert_eq!(RouletteSelection.select(&mut rng, &population), 1);
        draw += 1;
    }
}

#[test]
fn test_crossover() {
    let mut rng = ChaCha8Rng::from_seed(Default::default());
    let mut a: Vec<i64> = Vec::new();
    let mut b: Vec<i64> = Vec::new();
    let mut x: i64 = 1;
    while x <= 100 {
        a.push(x * UNIT);
        b.push(-x * UNIT);
        x += 1;
    }
    let parent_a = Chromosome::from_genes(a);
    let parent_b = Chromosome::from_genes(b);
    let child = UniformCrossover.crossover(&mut rng, &parent_a, &parent_b);
    assert_eq!(child.len(), 100);
    let mut diff_a: usize = 0;
    let mut diff_b: usize = 0;
    let mut i: usize = 0;
    while i < 100 {
        if child.gene(i) != parent_a.gene(i) {
            diff_a += 1;
        }
        if child.gene(i) != parent_b.gene(i) {
            diff_b += 1;
        }
        i += 1;
    }
    // no shared genes: every position differs from exactly one parent, and
    // the split stays near half and half
    assert_eq!(diff_a + diff_b, 100);
    assert!(diff_a >= 30 && diff_b >= 30);
}

#[test]
fn test_uniform() {
    let mut rng = ChaCha8Rng::from_seed(Default::default());
    let parent_a = Chromosome::from_genes(vec![UNIT, 2 * UNIT, 3 * UNIT]);
    let parent_b = Chromosome::from_genes(vec![-UNIT, -2 * UNIT, -3 * UNIT]);
    let child = Crossover::Uniform.crossover(&mut rng, &parent_a, &parent_b);
    let mut i: usize = 0;
    while i < 3 {
        let g = child.gene(i);
        assert!(g == parent_a.gene(i) || g == parent_b.gene(i));
        i += 1;
    }
}

fn mutated(chance: u64, coeff: i64) -> Chromosome {
    let mut child = Chromosome::from_genes(vec![UNIT, 2 * UNIT, 3 * UNIT, 4 * UNIT, 5 * UNIT]);
    let mut rng = ChaCha8Rng::from_seed(Default::default());
    GaussianMutation::new(chance, coeff).mutate(&mut rng, &mut child);
    child
}

fn genes_of(c: &Chromosome) -> Vec<i64> {
    let mut out: Vec<i64> = Vec::new();
    let mut i: usize = 0;
    while i < c.len() {
        out.push(c.gene(i));
        i += 1;
    }
    out
}

#[test]
fn mutation_unchanged_at_zero_chance_zero_coeff() {
    let expected = vec![UNIT, 2 * UNIT, 3 * UNIT, 4 * UNIT, 5 * UNIT];
    assert_eq!(genes_of(&mutated(0, 0)), expected);
}

#[test]
fn mutation_unchanged_at_zero_chance() {
    let expected = vec![UNIT, 2 * UNIT, 3 * UNIT, 4 * UNIT, 5 * UNIT];
    assert_eq!(genes_of(&mutated(0, 500_000)), expected);
}

#[test]
fn mutation_unchanged_at_zero_coeff() {
    let expected = vec![UNIT, 2 * UNIT, 3 * UNIT, 4 * UNIT, 5 * UNIT];
    assert_eq!(genes_of(&mutated(500_000, 0)), expected);
    assert_eq!(genes_of(&mutated(1_000_000, 0)), expected);
}

#[test]
fn mutation_slightly_changes_at_half_chance() {
    let original = vec![UNIT, 2 * UNIT, 3 * UNIT, 4 * UNIT, 5 * UNIT];
    let actual = genes_of(&mutated(500_000, 500_000));
    let mut changed: usize = 0;
    let mut i: usize = 0;
    while i < 5 {
        if actual[i] != original[i] {
            // a perturbation stays within the coefficient
            assert!((actual[i] - original[i]).abs() <= 500_000);
            changed += 1;
        }
        i += 1;
    }
    assert!(changed >= 1 && changed < 5);
}

#[test]
fn mutation_entirely_changes_at_full_chance() {
    let original = vec![UNIT, 2 * UNIT, 3 * UNIT, 4 * UNIT, 5 * UNIT];
    let actual = genes_of(&mutated(1_000_000, 1_000_000));
    let mut i: usize = 0;
    let mut changed: usize = 0;
    while i < 5 {
        assert!((actual[i] - original[i]).abs() <= 1_000_000);
        if actual[i] != original[i] {
            changed += 1;
        }
        i += 1;
    }
    assert!(changed >= 4);
}

#[test]
fn evolve_preserves_population_size() {
    let mut rng = ChaCha8Rng::seed_from_u64(11);
    let ga = GeneticAlgorithm::new(
        Selection::Roulette,
        Crossover::Uniform,
        Mutation::Gaussian(10_000, 300_000),
    );
    let mut sizes: Vec<usize> = vec![1, 2, 5, 9];
    while let Some(n) = sizes.pop() {
        let mut population: Vec<TestIndividual> = Vec::new();
        let mut i: usize = 0;
        while i < n {
            let genes: Vec<i64> = vec![(i as i64 + 1) * UNIT, UNIT, -UNIT];
            population.push(TestIndividual::create(Chromosome::from_genes(genes)));
            i += 1;
        }
        let (next, _stats) = ga.evolve(&mut rng, &population);
        assert_eq!(next.len(), n);
        for child in &next {
            assert_eq!(child.chromosome().len(), 3);
        }
    }
}

#[test]
fn statistics_summarize_the_outgoing_population() {
    let population = vec![
        TestIndividual::new(3_000_000),
        TestIndividual::new(1_000_000),
        TestIndividual::new(4_000_000),
        TestIndividual::new(1_000_000),
    ];
    let stats = Statistics::new(&population);
    assert_eq!(stats.min_fitness(), 1_000_000);
    assert_eq!(stats.max_fitness(), 4_000_000);
    // mean of 3, 1, 4, 1 is 2.25
    assert_eq!(stats.avg_fitness(), 2_250_000);
}

#[test]
fn roulette_falls_back_to_uniform_on_all_zero_fitness() {
    // the documented policy for the degenerate state: a weighted draw is
    // impossible, so selection degrades to a uniform one
    let mut rng = ChaCha8Rng::seed_from_u64(8);
    let population = vec![
        TestIndividual::new(0),
        TestIndividual::new(0),
        TestIndividual::new(0),
    ];
    let mut seen: [bool; 3] = [false, false, false];
    let mut draw: usize = 0;
    while draw < 200 {
        let chosen = RouletteSelection.select(&mut rng, &population);
        assert!(chosen < 3);
        seen[chosen] = true;
        draw += 1;
    }
    assert!(seen[0] && seen[1] && seen[2]);
}
