use std::collections::BTreeMap;

use evonet::SCALE;
use evonet::Error;
use evonet::algorithm::GeneticAlgorithm;
use evonet::chromosome::Chromosome;
use evonet::crossover::{CrossoverMethod, UniformCrossover};
use evonet::individual::{Builder, Individual, TestIndividual};
use evonet::mutation::GaussianMutation;
use evonet::random::RandomSource;
use evonet::selection::{RouletteWheelSelection, SelectionMethod};

fn chromosome() -> Chromosome {
    Chromosome::from_genes(vec![3_000_000, 1_000_000, 2_000_000])
}

struct TestBuilder;

impl Builder<TestIndividual> for TestBuilder {
    fn build(&self, chromosome: Chromosome, _rng: &mut RandomSource) -> TestIndividual {
        TestIndividual::with_chromosome(1_000_000, chromosome)
    }
}

#[test]
fn roulette_selection() {
    let method = RouletteWheelSelection::new();
    let mut rng = RandomSource::from_seed(0);

    let population = vec![
        TestIndividual::new(2_000_000),
        TestIndividual::new(1_000_000),
        TestIndividual::new(4_000_000),
        TestIndividual::new(3_000_000),
    ];

    let mut histogram: BTreeMap<u32, i32> = BTreeMap::new();
    for _ in 0..1000 {
        let chosen = method.select(&mut rng, &population).unwrap();
        *histogram.entry(chosen.fitness() / 1_000_000).or_default() += 1;
    }

    // Fitness-proportionate draws converge on 10% / 20% / 30% / 40%.
    let expected: [(u32, i32); 4] = [(1, 100), (2, 200), (3, 300), (4, 400)];
    for (fitness, count) in expected {
        let actual = *histogram.get(&fitness).unwrap();
        assert!((actual - count).abs() <= 40, "fitness {fitness}: {actual}");
    }
}

#[test]
fn zero_total_fitness_is_degenerate() {
    let method = RouletteWheelSelection::new();
    let mut rng = RandomSource::from_seed(0);
    let population = vec![TestIndividual::new(0), TestIndividual::new(0)];
    assert_eq!(
        method.select(&mut rng, &population).unwrap_err(),
        Error::EmptyOrDegeneratePopulation,
    );
}

#[test]
fn selection_rejects_empty_population() {
    let method = RouletteWheelSelection::new();
    let mut rng = RandomSource::from_seed(0);
    let empty: Vec<TestIndividual> = Vec::new();
    assert_eq!(
        method.select(&mut rng, &empty).unwrap_err(),
        Error::EmptyPopulation,
    );
}

#[test]
fn len() {
    assert_eq!(chromosome().len(), 3);
}

#[test]
fn iter() {
    let chromosome = chromosome();
    let genes = chromosome.iter();

    assert_eq!(genes.len(), 3);
    assert_eq!(genes[0], 3_000_000);
    assert_eq!(genes[1], 1_000_000);
    assert_eq!(genes[2], 2_000_000);
}

#[test]
fn iter_mut() {
    let mut chromosome = chromosome();

    for i in 0..chromosome.len() {
        let gene = chromosome.get(i).unwrap();
        chromosome.set(i, gene * 10).unwrap();
    }

    let genes = chromosome.iter();

    assert_eq!(genes.len(), 3);
    assert_eq!(genes[0], 30_000_000);
    assert_eq!(genes[1], 10_000_000);
    assert_eq!(genes[2], 20_000_000);
}

#[test]
fn index() {
    let chromosome = chromosome();

    assert_eq!(chromosome.get(0).unwrap(), 3_000_000);
    assert_eq!(chromosome.get(1).unwrap(), 1_000_000);
    assert_eq!(chromosome.get(2).unwrap(), 2_000_000);
}

#[test]
fn index_out_of_range() {
    let mut chromosome = chromosome();
    assert_eq!(chromosome.get(3).unwrap_err(), Error::IndexOutOfRange);
    assert_eq!(chromosome.set(3, 0).unwrap_err(), Error::IndexOutOfRange);
}

#[test]
fn from_iter() {
    let chromosome = Chromosome::from_genes(vec![3_000_000, 1_000_000, 2_000_000]);

    assert_eq!(chromosome.get(0).unwrap(), 3_000_000);
    assert_eq!(chromosome.get(1).unwrap(), 1_000_000);
    assert_eq!(chromosome.get(2).unwrap(), 2_000_000);
}

#[test]
fn into_genes_round_trip() {
    let genes = vec![5, -7, 0, 12];
    assert_eq!(Chromosome::from_genes(genes.clone()).into_genes(), genes);
}

#[test]
fn crossover_takes_each_gene_from_a_parent() {
    let mut rng = RandomSource::from_seed(42);
    let parent_a = Chromosome::from_genes((1..=100).collect());
    let parent_b = Chromosome::from_genes((1..=100).map(|g: i32| -g).collect());

    let child = UniformCrossover::new()
        .crossover(&mut rng, &parent_a, &parent_b)
        .unwrap();

    assert_eq!(child.len(), 100);
    let mut from_a = 0;
    let mut from_b = 0;
    for i in 0..child.len() {
        let gene = child.get(i).unwrap();
        let a = parent_a.get(i).unwrap();
        let b = parent_b.get(i).unwrap();
        assert!(gene == a || gene == b);
        if gene == a {
            from_a += 1;
        } else {
            from_b += 1;
        }
    }
    // A fair coin per position leaves a mix, not a clone of one parent.
    assert!(from_a > 0 && from_b > 0);
}

#[test]
fn crossover_rejects_unequal_lengths() {
    let mut rng = RandomSource::from_seed(0);
    let parent_a = Chromosome::from_genes(vec![1, 2, 3]);
    let parent_b = Chromosome::from_genes(vec![1, 2]);
    assert_eq!(
        UniformCrossover::new()
            .crossover(&mut rng, &parent_a, &parent_b)
            .unwrap_err(),
        Error::ChromosomeLengthMismatch,
    );
}

#[test]
fn mutation_with_zero_chance_changes_nothing() {
    let mut rng = RandomSource::from_seed(3);
    let mut chromosome = chromosome();
    GaussianMutation::new(0, 500_000).mutate_genes(&mut rng, &mut chromosome);
    assert_eq!(chromosome.iter(), vec![3_000_000, 1_000_000, 2_000_000]);
}

#[test]
fn mutation_preserves_length_and_stays_in_reach() {
    let mut rng = RandomSource::from_seed(3);
    let original: Vec<i32> = (0..50).map(|g| g * 100_000).collect();
    let mut chromosome = Chromosome::from_genes(original.clone());
    let coefficient = 250_000;
    GaussianMutation::new(SCALE as u32, coefficient).mutate_genes(&mut rng, &mut chromosome);

    let mutated = chromosome.iter();
    assert_eq!(mutated.len(), original.len());
    let mut moved = 0;
    for i in 0..original.len() {
        let delta = (mutated[i] - original[i]).abs();
        assert!(delta <= coefficient);
        if delta > 0 {
            moved += 1;
        }
    }
    assert!(moved > 0);
}

#[test]
fn evolve_preserves_population_size() {
    for size in 1..=6usize {
        let ga = GeneticAlgorithm::new(
            RouletteWheelSelection::new(),
            UniformCrossover::new(),
            GaussianMutation::new(SCALE as u32 / 2, 300_000),
        );
        let mut rng = RandomSource::from_seed(9);
        let population: Vec<TestIndividual> = (0..size)
            .map(|i| {
                TestIndividual::with_chromosome(
                    (i as u32 + 1) * 1_000_000,
                    Chromosome::from_genes(vec![1_000_000; 5]),
                )
            })
            .collect();
        let next = ga.evolve(&mut rng, &population, &TestBuilder).unwrap();
        assert_eq!(next.len(), size);
        for individual in &next {
            assert_eq!(individual.chromosome().len(), 5);
        }
    }
}

#[test]
fn evolve_rejects_empty_population() {
    let ga = GeneticAlgorithm::new(
        RouletteWheelSelection::new(),
        UniformCrossover::new(),
        GaussianMutation::new(0, 0),
    );
    let mut rng = RandomSource::from_seed(0);
    let population: Vec<TestIndividual> = Vec::new();
    assert_eq!(
        ga.evolve(&mut rng, &population, &TestBuilder).unwrap_err(),
        Error::EmptyPopulation,
    );
}

#[test]
fn evolve_rejects_zero_total_fitness() {
    let ga = GeneticAlgorithm::new(
        RouletteWheelSelection::new(),
        UniformCrossover::new(),
        GaussianMutation::new(0, 0),
    );
    let mut rng = RandomSource::from_seed(0);
    let population = vec![
        TestIndividual::with_chromosome(0, Chromosome::from_genes(vec![1])),
        TestIndividual::with_chromosome(0, Chromosome::from_genes(vec![2])),
    ];
    assert_eq!(
        ga.evolve(&mut rng, &population, &TestBuilder).unwrap_err(),
        Error::EmptyOrDegeneratePopulation,
    );
}

#[test]
fn evolve_is_deterministic_under_a_fixed_seed() {
    let run = || {
        let ga = GeneticAlgorithm::new(
            RouletteWheelSelection::new(),
            UniformCrossover::new(),
            GaussianMutation::new(SCALE as u32 / 4, 700_000),
        );
        let mut rng = RandomSource::from_seed(1234);
        let mut population: Vec<TestIndividual> = (0..8)
            .map(|i| {
                TestIndividual::with_chromosome(
                    (i as u32 + 1) * 500_000,
                    Chromosome::from_genes((0..10).map(|g| (g - 5) * 200_000).collect()),
                )
            })
            .collect();
        for _ in 0..3 {
            population = ga.evolve(&mut rng, &population, &TestBuilder).unwrap();
        }
        population
            .iter()
            .map(|individual| individual.chromosome().iter())
            .collect::<Vec<Vec<i32>>>()
    };

    assert_eq!(run(), run());
}
