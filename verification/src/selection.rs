//! Fitness-proportionate choice of a parent from a population.

use vstd::prelude::*;
use crate::Error;
use crate::individual::{Individual, total_fitness};
use crate::random::{RandomSource, sum_weights};

verus! {

/// A strategy that draws one parent from a population, biased by fitness.
/// A draw succeeds exactly when the population's total fitness is positive.
/// A population with zero individuals fails with `EmptyPopulation`; a
/// non-empty population whose fitness scores are all zero admits no
/// proportionate draw and is reported as degenerate rather than sampled
/// uniformly. One draw is independent of the next: the same individual may
/// be returned twice in a row (self-pairing is permitted).
pub trait SelectionMethod {
    /// Draws one individual, with probability biased by fitness.
    fn select<'a, I: Individual>(
        &self,
        rng: &mut RandomSource,
        population: &'a Vec<I>,
    ) -> (r: Result<&'a I, Error>)
        requires
            population@.len() <= u32::MAX,
        ensures
            total_fitness(population@) > 0 <==> r is Ok,
            r matches Ok(ind) ==> exists|i: int|
                0 <= i < population@.len() && *ind == population@[i]
                    && population@[i].fitness_spec() > 0,
            population@.len() == 0 ==> r == Err::<&'a I, Error>(Error::EmptyPopulation),
            population@.len() > 0 && r is Err
                ==> r->Err_0 == Error::EmptyOrDegeneratePopulation,
    ;
}

/// Roulette-wheel selection: the probability of drawing individual `i` is
/// `fitness(i)` divided by the population's total fitness (one weighted
/// draw per call, no exclusions).
#[derive(Clone, Debug)]
pub struct RouletteWheelSelection;

impl RouletteWheelSelection {
    pub fn new() -> (r: RouletteWheelSelection) {
        RouletteWheelSelection
    }
}

/// The sum of the fitness scores is never negative and never exceeds one
/// maximal score per individual.
proof fn lemma_total_fitness_bound<I: Individual>(pop: Seq<I>)
    ensures
        0 <= total_fitness(pop) <= pop.len() * (u32::MAX as int),
    decreases pop.len(),
{
    if pop.len() > 0 {
        lemma_total_fitness_bound(pop.skip(1));
        assert((pop.len() - 1) * (u32::MAX as int) + (u32::MAX as int)
            == pop.len() * (u32::MAX as int)) by (nonlinear_arith);
    }
}

/// The total fitness is positive exactly when some individual's fitness is.
proof fn lemma_total_fitness_positive<I: Individual>(pop: Seq<I>)
    ensures
        (total_fitness(pop) > 0) <==> (exists|i: int|
            0 <= i < pop.len() && pop[i].fitness_spec() > 0),
    decreases pop.len(),
{
    if pop.len() > 0 {
        lemma_total_fitness_positive(pop.skip(1));
        lemma_total_fitness_bound(pop.skip(1));
        if total_fitness(pop) > 0 {
            if pop[0].fitness_spec() > 0 {
                assert(0 <= 0 < pop.len() && pop[0].fitness_spec() > 0);
            } else {
                let i = choose|i: int|
                    0 <= i < pop.skip(1).len() && pop.skip(1)[i].fitness_spec() > 0;
                assert(pop[i + 1].fitness_spec() > 0);
            }
        }
        if exists|i: int| 0 <= i < pop.len() && pop[i].fitness_spec() > 0 {
            let i = choose|i: int| 0 <= i < pop.len() && pop[i].fitness_spec() > 0;
            if i > 0 {
                assert(pop.skip(1)[i - 1].fitness_spec() > 0);
            }
        }
    }
}

/// A weight table whose entries mirror a population's fitness scores sums
/// to the population's total fitness.
proof fn lemma_sum_matches_total<I: Individual>(pairs: Seq<(usize, u64)>, pop: Seq<I>)
    requires
        pairs.len() == pop.len(),
        forall|j: int| 0 <= j < pop.len()
            ==> (#[trigger] pairs[j]).1 == pop[j].fitness_spec(),
    ensures
        sum_weights(pairs) == total_fitness(pop),
    decreases pop.len(),
{
    if pop.len() > 0 {
        assert(forall|j: int| 0 <= j < pop.skip(1).len()
            ==> (#[trigger] pairs.skip(1)[j]).1 == pop.skip(1)[j].fitness_spec());
        lemma_sum_matches_total(pairs.skip(1), pop.skip(1));
    }
}

impl SelectionMethod for RouletteWheelSelection {
    fn select<'a, I: Individual>(
        &self,
        rng: &mut RandomSource,
        population: &'a Vec<I>,
    ) -> (r: Result<&'a I, Error>)
    {
        if population.len() == 0 {
            return Err(Error::EmptyPopulation);
        }
        let n = population.len();
        let mut pairs: Vec<(usize, u64)> = Vec::new();
        let mut i: usize = 0;
        while i < n
            invariant
                n == population@.len(),
                i <= n,
                pairs@.len() == i,
                forall|j: int| 0 <= j < i ==> (#[trigger] pairs@[j]).0 == j,
                forall|j: int| 0 <= j < i
                    ==> (#[trigger] pairs@[j]).1 == population@[j].fitness_spec(),
            decreases n - i,
        {
            let ind = &population[i];
            pairs.push((i, ind.fitness() as u64));
            i = i + 1;
        }
        proof {
            lemma_sum_matches_total(pairs@, population@);
            lemma_total_fitness_bound(population@);
            lemma_total_fitness_positive(population@);
            assert(population@.len() * (u32::MAX as int)
                <= (u32::MAX as int) * (u32::MAX as int)) by (nonlinear_arith)
                requires population@.len() <= u32::MAX as int;
            if exists|i: int| 0 <= i < population@.len()
                && population@[i].fitness_spec() > 0 {
                let i = choose|i: int| 0 <= i < population@.len()
                    && population@[i].fitness_spec() > 0;
                assert(pairs@[i].1 > 0);
            }
            if exists|i: int| 0 <= i < pairs@.len() && pairs@[i].1 > 0 {
                let i = choose|i: int| 0 <= i < pairs@.len() && pairs@[i].1 > 0;
                assert(population@[i].fitness_spec() > 0);
            }
        }
        match rng.weighted(&pairs) {
            Ok(j) => Ok(&population[j]),
            Err(e) => Err(e),
        }
    }
}

} // verus!
