//! The capability an evolvable domain entity exposes to the algorithm.

use vstd::prelude::*;
use crate::chromosome::Chromosome;
use crate::random::RandomSource;

verus! {

/// An entity of the surrounding domain that can be evolved: it exposes its
/// flat genetic encoding and a previously computed, non-negative fitness
/// score (fixed-point, `SCALE` ticks per unit). The algorithm only reads
/// individuals; it never mutates them.
pub trait Individual: Sized {
    /// The fitness score, as the contracts see it.
    spec fn fitness_spec(&self) -> u32;

    /// The genes, as the contracts see them.
    spec fn chromosome_spec(&self) -> Seq<i32>;

    /// The previously computed fitness score.
    fn fitness(&self) -> (r: u32)
        ensures
            r == self.fitness_spec(),
    ;

    /// The individual's genetic encoding.
    fn chromosome(&self) -> (r: &Chromosome)
        ensures
            r@ == self.chromosome_spec(),
    ;
}

/// The construction capability the surrounding domain supplies: it turns a
/// freshly bred chromosome (plus entropy for any domain state that must be
/// drawn anew) into a live individual.
pub trait Builder<I: Individual> {
    /// Materializes one individual from its genetic encoding.
    fn build(&self, chromosome: Chromosome, rng: &mut RandomSource) -> I;
}

/// The sum of the fitness scores of a population.
pub open spec fn total_fitness<I: Individual>(pop: Seq<I>) -> int
    decreases pop.len(),
{
    if pop.len() == 0 {
        0
    } else {
        pop[0].fitness_spec() + total_fitness(pop.skip(1))
    }
}

/// A minimal individual for exercising the algorithm outside a simulation:
/// a fitness score and a chromosome, nothing else.
#[derive(Clone, Debug)]
pub struct TestIndividual {
    fitness: u32,
    chromosome: Chromosome,
}

impl TestIndividual {
    /// An individual with the given fitness and an empty chromosome.
    pub fn new(fitness: u32) -> (r: TestIndividual)
        ensures
            r.fitness_spec() == fitness,
            r.chromosome_spec() == Seq::<i32>::empty(),
    {
        TestIndividual { fitness, chromosome: Chromosome::from_genes(Vec::new()) }
    }

    /// An individual with the given fitness and genes.
    pub fn with_chromosome(fitness: u32, chromosome: Chromosome) -> (r: TestIndividual)
        ensures
            r.fitness_spec() == fitness,
            r.chromosome_spec() == chromosome@,
    {
        TestIndividual { fitness, chromosome }
    }
}

impl Individual for TestIndividual {
    closed spec fn fitness_spec(&self) -> u32 {
        self.fitness
    }

    closed spec fn chromosome_spec(&self) -> Seq<i32> {
        self.chromosome@
    }

    fn fitness(&self) -> (r: u32) {
        self.fitness
    }

    fn chromosome(&self) -> (r: &Chromosome) {
        &self.chromosome
    }
}

} // verus!
