//! One generational step of the evolutionary engine.

use vstd::prelude::*;
use crate::Error;
use crate::crossover::CrossoverMethod;
use crate::individual::{Builder, Individual, total_fitness};
use crate::mutation::MutationMethod;
use crate::random::RandomSource;
use crate::selection::SelectionMethod;

verus! {

/// Every individual's chromosome has the same length.
pub open spec fn uniform_length<I: Individual>(pop: Seq<I>) -> bool {
    forall|i: int| 0 <= i < pop.len()
        ==> (#[trigger] pop[i].chromosome_spec()).len() == pop[0].chromosome_spec().len()
}

/// The orchestrator of one generational step. It holds the three pluggable
/// strategies (selection, crossover, mutation) and otherwise knows nothing
/// about fitness computation or the surrounding domain.
pub struct GeneticAlgorithm<S, C, M> {
    selection_method: S,
    crossover_method: C,
    mutation_method: M,
}

impl<S: SelectionMethod, C: CrossoverMethod, M: MutationMethod> GeneticAlgorithm<S, C, M> {
    /// An engine built from the three strategies.
    pub fn new(selection_method: S, crossover_method: C, mutation_method: M)
        -> GeneticAlgorithm<S, C, M>
    {
        GeneticAlgorithm { selection_method, crossover_method, mutation_method }
    }

    /// Breeds the next generation: for each of the `population.len()` output
    /// slots, draws two parents (independently; they may coincide), crosses
    /// their chromosomes, mutates the child, and materializes a fresh
    /// individual through the supplied builder.
    ///
    /// An empty population is rejected as `EmptyPopulation`; a population
    /// whose total fitness is zero admits no proportionate draw and is
    /// rejected as `EmptyOrDegeneratePopulation`; when every chromosome has
    /// the same length, a positive total fitness guarantees a new population
    /// of exactly the input size.
    pub fn evolve<I: Individual, B: Builder<I>>(
        &self,
        rng: &mut RandomSource,
        population: &Vec<I>,
        builder: &B,
    ) -> (r: Result<Vec<I>, Error>)
        requires
            population@.len() <= u32::MAX,
        ensures
            population@.len() == 0 <==> r == Err::<Vec<I>, Error>(Error::EmptyPopulation),
            r matches Ok(out) ==> out@.len() == population@.len(),
            r is Ok ==> total_fitness(population@) > 0,
            population@.len() > 0 && total_fitness(population@) == 0
                ==> r == Err::<Vec<I>, Error>(Error::EmptyOrDegeneratePopulation),
            population@.len() > 0 && total_fitness(population@) > 0
                && uniform_length(population@) ==> r is Ok,
            r matches Err(e) ==> e == Error::EmptyPopulation
                || e == Error::EmptyOrDegeneratePopulation
                || e == Error::ChromosomeLengthMismatch,
    {
        if population.len() == 0 {
            return Err(Error::EmptyPopulation);
        }
        let n = population.len();
        let mut out: Vec<I> = Vec::new();
        let mut slot: usize = 0;
        while slot < n
            invariant
                n == population@.len(),
                0 < n <= u32::MAX,
                slot <= n,
                out@.len() == slot,
                slot > 0 ==> total_fitness(population@) > 0,
            decreases n - slot,
        {
            let parent_a = match self.selection_method.select(rng, population) {
                Ok(p) => p,
                Err(e) => {
                    return Err(e);
                },
            };
            let parent_b = match self.selection_method.select(rng, population) {
                Ok(p) => p,
                Err(e) => {
                    return Err(e);
                },
            };
            let mut child = match self.crossover_method.crossover(
                rng,
                parent_a.chromosome(),
                parent_b.chromosome(),
            ) {
                Ok(c) => c,
                Err(e) => {
                    return Err(e);
                },
            };
            self.mutation_method.mutate(rng, &mut child);
            let individual = builder.build(child, rng);
            out.push(individual);
            slot = slot + 1;
        }
        Ok(out)
    }
}

} // verus!
