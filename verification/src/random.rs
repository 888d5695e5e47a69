//! The injectable source of pseudo-randomness.
//!
//! Every stochastic operation of the library (selection draws, crossover
//! coin flips, mutation draws, random network construction) takes its
//! entropy from a `RandomSource` threaded through the call explicitly, so
//! that a fixed seed yields a bit-identical run.

use vstd::prelude::*;
use crate::Error;
use rand::Rng;
use rand::SeedableRng;
use rand::seq::SliceRandom;

verus! {

#[verifier::external_type_specification]
#[verifier::external_body]
pub struct ExChaCha8Rng(rand_chacha::ChaCha8Rng);

/// A seedable deterministic pseudo-random generator.
pub struct RandomSource {
    rng: rand_chacha::ChaCha8Rng,
}

/// The sum of the weights in a weight table.
pub open spec fn sum_weights(s: Seq<(usize, u64)>) -> int
    decreases s.len(),
{
    if s.len() == 0 {
        0
    } else {
        s[0].1 + sum_weights(s.skip(1))
    }
}

impl RandomSource {
    /// Relies on rand::SeedableRng::seed_from_u64: builds a ChaCha8 stream
    /// cipher generator whose output is a function of the seed alone.
    #[verifier::external_body]
    pub fn from_seed(seed: u64) -> (r: RandomSource) {
        RandomSource { rng: rand_chacha::ChaCha8Rng::seed_from_u64(seed) }
    }

    /// Relies on rand::Rng::gen_range over an inclusive range: the sample
    /// lies in `[lo, hi]`; the call panics only on an empty range, which
    /// the precondition rules out.
    #[verifier::external_body]
    pub fn next_in_range(&mut self, lo: i32, hi: i32) -> (r: i32)
        requires
            lo <= hi,
        ensures
            lo <= r <= hi,
    {
        self.rng.gen_range(lo..=hi)
    }

    /// Relies on rand::Rng::gen_ratio: returns true with probability
    /// `num / den`; always false for a zero numerator and always true for
    /// `num == den` (both stated by its documentation and visible in
    /// rand's Bernoulli::from_ratio); panics only when `den == 0` or
    /// `num > den`, which the precondition rules out.
    #[verifier::external_body]
    pub fn ratio(&mut self, num: u32, den: u32) -> (r: bool)
        requires
            0 < den,
            num <= den,
        ensures
            num == 0 ==> r == false,
            num == den ==> r == true,
    {
        self.rng.gen_ratio(num, den)
    }

    /// Relies on rand::seq::SliceRandom::choose_weighted, which draws an
    /// entry with probability proportional to its weight: the drawn entry
    /// has a positive weight, and the draw fails exactly when the table is
    /// empty or every weight is zero (rand's WeightedIndex::new returns
    /// NoItem or AllWeightsZero then, and unsigned weights are never
    /// invalid). The precondition keeps the internal running sum of the
    /// weights from overflowing.
    #[verifier::external_body]
    pub fn weighted(&mut self, pairs: &Vec<(usize, u64)>) -> (r: Result<usize, Error>)
        requires
            forall|i: int| 0 <= i < pairs@.len() ==> (#[trigger] pairs@[i]).0 == i,
            sum_weights(pairs@) <= u64::MAX,
        ensures
            r is Ok ==> r.unwrap() < pairs@.len() && pairs@[r.unwrap() as int].1 > 0,
            (exists|i: int| 0 <= i < pairs@.len() && pairs@[i].1 > 0) <==> r is Ok,
            r is Err ==> r->Err_0 == Error::EmptyOrDegeneratePopulation,
    {
        match pairs.choose_weighted(&mut self.rng, |p| p.1) {
            Ok(p) => Ok(p.0),
            Err(_) => Err(Error::EmptyOrDegeneratePopulation),
        }
    }
}

} // verus!
