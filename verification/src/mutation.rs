//! In-place perturbation of a chromosome's genes.

use vstd::prelude::*;
use crate::SCALE;
use crate::chromosome::Chromosome;
use crate::random::RandomSource;

verus! {

/// A strategy that perturbs a chromosome's genes in place. Mutation never
/// changes the chromosome's length.
pub trait MutationMethod {
    /// Rewrites some genes of the chromosome, leaving its length unchanged.
    fn mutate(&self, rng: &mut RandomSource, chromosome: &mut Chromosome)
        ensures
            final(chromosome)@.len() == old(chromosome)@.len(),
    ;
}

/// Per-gene additive mutation: independently for each gene, with probability
/// `chance` (a fixed-point number in `[0, 1]`, i.e. in `[0, SCALE]` ticks)
/// the gene is replaced by `gene + coefficient * u` with `u` drawn uniformly
/// from `[-1, 1]`; otherwise it is left unchanged. A replacement that would
/// leave the fixed-point range saturates at its nearer bound. A chance of
/// zero is a no-op; a chance of one perturbs every gene.
#[derive(Debug)]
pub struct GaussianMutation {
    chance: u32,
    coefficient: i32,
}

impl GaussianMutation {
    #[verifier::type_invariant]
    closed spec fn wf(&self) -> bool {
        self.chance <= SCALE as u32 && self.coefficient >= 0
    }

    /// The mutation probability, in ticks of `1 / SCALE`.
    pub closed spec fn chance_spec(&self) -> u32 {
        self.chance
    }

    /// The largest possible magnitude of a perturbation, in ticks.
    pub closed spec fn coefficient_spec(&self) -> i32 {
        self.coefficient
    }

    /// A mutation strategy with the given per-gene probability (in
    /// `[0, SCALE]` ticks) and perturbation magnitude (non-negative).
    pub fn new(chance: u32, coefficient: i32) -> (r: GaussianMutation)
        requires
            chance <= SCALE as u32,
            coefficient >= 0,
        ensures
            r.chance_spec() == chance,
            r.coefficient_spec() == coefficient,
    {
        GaussianMutation { chance, coefficient }
    }

    /// Perturbs each gene independently: length is preserved, no gene moves
    /// by more than the coefficient, and a zero chance changes nothing.
    pub fn mutate_genes(&self, rng: &mut RandomSource, chromosome: &mut Chromosome)
        ensures
            final(chromosome)@.len() == old(chromosome)@.len(),
            self.chance_spec() == 0 ==> final(chromosome)@ == old(chromosome)@,
            forall|j: int| 0 <= j < old(chromosome)@.len()
                ==> old(chromosome)@[j] - self.coefficient_spec()
                    <= #[trigger] final(chromosome)@[j]
                    <= old(chromosome)@[j] + self.coefficient_spec(),
    {
        proof {
            use_type_invariant(self);
        }
        let n = chromosome.len();
        let mut i: usize = 0;
        while i < n
            invariant
                self.chance <= SCALE as u32,
                self.coefficient >= 0,
                n == old(chromosome)@.len(),
                chromosome@.len() == n,
                i <= n,
                self.chance == 0 ==> chromosome@ == old(chromosome)@,
                forall|j: int| i <= j < n
                    ==> #[trigger] chromosome@[j] == old(chromosome)@[j],
                forall|j: int| 0 <= j < i
                    ==> old(chromosome)@[j] - self.coefficient
                        <= #[trigger] chromosome@[j]
                        <= old(chromosome)@[j] + self.coefficient,
            decreases n - i,
        {
            if rng.ratio(self.chance, SCALE as u32) {
                let g = chromosome.gene(i);
                let delta = rng.next_in_range(-self.coefficient, self.coefficient);
                let moved: i64 = g as i64 + delta as i64;
                let clamped: i32 = if moved > i32::MAX as i64 {
                    i32::MAX
                } else if moved < i32::MIN as i64 {
                    i32::MIN
                } else {
                    moved as i32
                };
                let set_result = chromosome.set(i, clamped);
                proof {
                    assert(set_result is Ok);
                }
            }
            i = i + 1;
        }
    }
}

impl MutationMethod for GaussianMutation {
    fn mutate(&self, rng: &mut RandomSource, chromosome: &mut Chromosome) {
        self.mutate_genes(rng, chromosome)
    }
}

} // verus!
