//! The flat, ordered encoding of an individual's evolvable state.

use vstd::prelude::*;
use crate::Error;

verus! {

/// An ordered, fixed-length sequence of fixed-point genes. Position is
/// significant: each slot encodes one specific bias or weight of a network.
/// No validation happens at construction; length compatibility is enforced
/// by the operations that combine chromosomes (crossover, decoding).
#[derive(Clone, Debug, PartialEq)]
pub struct Chromosome {
    genes: Vec<i32>,
}

impl View for Chromosome {
    type V = Seq<i32>;

    closed spec fn view(&self) -> Seq<i32> {
        self.genes@
    }
}

impl Chromosome {
    /// The number of genes.
    pub fn len(&self) -> (r: usize)
        ensures
            r == self@.len(),
    {
        self.genes.len()
    }

    /// Bounds-checked read of one gene.
    pub fn get(&self, index: usize) -> (r: Result<i32, Error>)
        ensures
            index < self@.len() ==> r == Ok::<i32, Error>(self@[index as int]),
            index >= self@.len() ==> r == Err::<i32, Error>(Error::IndexOutOfRange),
    {
        if index < self.genes.len() {
            Ok(self.genes[index])
        } else {
            Err(Error::IndexOutOfRange)
        }
    }

    /// Unchecked read for callers that have already established the bound.
    pub(crate) fn gene(&self, index: usize) -> (r: i32)
        requires
            index < self@.len(),
        ensures
            r == self@[index as int],
    {
        self.genes[index]
    }

    /// Bounds-checked in-place rewrite of one gene.
    pub fn set(&mut self, index: usize, gene: i32) -> (r: Result<(), Error>)
        ensures
            index < old(self)@.len() ==> r == Ok::<(), Error>(())
                && final(self)@ == old(self)@.update(index as int, gene),
            index >= old(self)@.len() ==> r == Err::<(), Error>(Error::IndexOutOfRange)
                && final(self)@ == old(self)@,
    {
        if index < self.genes.len() {
            self.genes.set(index, gene);
            Ok(())
        } else {
            Err(Error::IndexOutOfRange)
        }
    }

    /// A read-only snapshot of the genes, in order.
    pub fn iter(&self) -> (r: Vec<i32>)
        ensures
            r@ == self@,
    {
        let mut out: Vec<i32> = Vec::new();
        let mut i: usize = 0;
        while i < self.genes.len()
            invariant
                i <= self.genes@.len(),
                out@ == self.genes@.take(i as int),
            decreases self.genes@.len() - i,
        {
            out.push(self.genes[i]);
            i = i + 1;
            proof {
                assert(out@ =~= self.genes@.take(i as int));
            }
        }
        proof {
            assert(out@ =~= self.genes@);
        }
        out
    }

    /// Builds a chromosome from an ordered sequence of genes.
    pub fn from_genes(genes: Vec<i32>) -> (r: Chromosome)
        ensures
            r@ == genes@,
    {
        Chromosome { genes }
    }

    /// Decomposes the chromosome back into its ordered gene sequence.
    pub fn into_genes(self) -> (r: Vec<i32>)
        ensures
            r@ == self@,
    {
        self.genes
    }
}

} // verus!
