//! Recombination of two parent chromosomes into one child.

use vstd::prelude::*;
use crate::Error;
use crate::chromosome::Chromosome;
use crate::random::RandomSource;

verus! {

/// A strategy that combines two parent chromosomes of equal length into one
/// child chromosome of that length. Every child gene is taken verbatim from
/// one of the two parents at the same position: never a blend, never a
/// value absent from both.
pub trait CrossoverMethod {
    /// Breeds one child chromosome from two parents.
    fn crossover(
        &self,
        rng: &mut RandomSource,
        parent_a: &Chromosome,
        parent_b: &Chromosome,
    ) -> (r: Result<Chromosome, Error>)
        ensures
            (r is Ok) <==> parent_a@.len() == parent_b@.len(),
            r matches Ok(child) ==> child@.len() == parent_a@.len()
                && forall|i: int| 0 <= i < child@.len()
                    ==> #[trigger] child@[i] == parent_a@[i] || child@[i] == parent_b@[i],
            r matches Err(e) ==> e == Error::ChromosomeLengthMismatch,
    ;
}

/// Uniform crossover: independently for each gene position, a fair coin
/// decides whether the child's gene comes from parent A or parent B.
#[derive(Clone, Debug)]
pub struct UniformCrossover;

impl UniformCrossover {
    pub fn new() -> (r: UniformCrossover) {
        UniformCrossover
    }
}

impl CrossoverMethod for UniformCrossover {
    fn crossover(
        &self,
        rng: &mut RandomSource,
        parent_a: &Chromosome,
        parent_b: &Chromosome,
    ) -> (r: Result<Chromosome, Error>)
    {
        if parent_a.len() != parent_b.len() {
            return Err(Error::ChromosomeLengthMismatch);
        }
        let n = parent_a.len();
        let mut genes: Vec<i32> = Vec::new();
        let mut i: usize = 0;
        while i < n
            invariant
                n == parent_a@.len(),
                n == parent_b@.len(),
                i <= n,
                genes@.len() == i,
                forall|j: int| 0 <= j < i
                    ==> #[trigger] genes@[j] == parent_a@[j] || genes@[j] == parent_b@[j],
            decreases n - i,
        {
            if rng.ratio(1, 2) {
                genes.push(parent_a.gene(i));
            } else {
                genes.push(parent_b.gene(i));
            }
            i = i + 1;
        }
        Ok(Chromosome::from_genes(genes))
    }
}

} // verus!
