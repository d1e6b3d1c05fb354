//! Solutions and populations: a solution owns one chromosome and the
//! fitness computed for it; a population is kept sorted by fitness
//! ascending, best first.

use vstd::prelude::*;
use vstd::multiset::Multiset;
use crate::fitness::{mse_spec, Point};

verus! {

/// One candidate: a chromosome (gene `j` is the fixed-point coefficient of
/// `x^j`) together with its mean squared error against the point set.
/// The fitness is computed once, when the solution is formed, and a changed
/// chromosome always yields a new solution.
pub struct Solution {
    pub chromosome: Vec<i64>,
    pub fitness: i64,
}

/// Every gene lies within the configured bounds.
pub open spec fn genes_within(c: Seq<i64>, lo: i64, hi: i64) -> bool {
    forall|j: int| 0 <= j < c.len() ==> lo <= #[trigger] c[j] <= hi
}

/// A well-formed solution for a run: chromosome of the configured length,
/// genes within bounds, and fitness consistent with the chromosome.
pub open spec fn sol_wf(s: Solution, len: nat, lo: i64, hi: i64, pts: Seq<Point>) -> bool {
    &&& s.chromosome@.len() == len
    &&& genes_within(s.chromosome@, lo, hi)
    &&& s.fitness as int == mse_spec(s.chromosome@, pts)
}

/// Sorted by fitness ascending: the best (lowest mean squared error) first.
pub open spec fn sorted_by_fitness(s: Seq<Solution>) -> bool {
    forall|i: int, j: int| 0 <= i < j < s.len() ==> #[trigger] s[i].fitness <= #[trigger] s[j].fitness
}

/// Two sequences with equal multisets hold exactly the same solutions: each
/// member of one is a member of the other.
pub proof fn lemma_permutation_members(a: Seq<Solution>, b: Seq<Solution>)
    requires
        a.to_multiset() == b.to_multiset(),
    ensures
        forall|j: int| 0 <= j < b.len() ==> a.contains(#[trigger] b[j]),
{
    broadcast use vstd::seq_lib::group_to_multiset_ensures;

    assert forall|j: int| 0 <= j < b.len() implies a.contains(#[trigger] b[j]) by {
        assert(b.contains(b[j]));
        assert(b.to_multiset().contains(b[j]));
        assert(a.to_multiset().contains(b[j]));
    }
}

/// Elitism policy: detach the `k` best solutions of a fitness-sorted
/// population — its first `k` entries, byte for byte — to be merged
/// unchanged into the next generation.
pub fn take_elites(pop: Vec<Solution>, k: usize) -> (r: Vec<Solution>)
    requires
        k <= pop@.len(),
    ensures
        r@ == pop@.take(k as int),
{
    let mut r = pop;
    r.truncate(k);
    r
}

/// Sort a population by fitness ascending. The result is a permutation of
/// the input: the same solution values, in sorted order.
pub fn sort_by_fitness_asc(v: Vec<Solution>) -> (r: Vec<Solution>)
    ensures
        sorted_by_fitness(r@),
        r@.to_multiset() == v@.to_multiset(),
        r@.len() == v@.len(),
{
    broadcast use vstd::seq_lib::group_to_multiset_ensures;

    let mut rest = v;
    let mut out: Vec<Solution> = Vec::new();
    while rest.len() > 0
        invariant
            sorted_by_fitness(out@),
            out@.to_multiset().add(rest@.to_multiset()) =~= v@.to_multiset(),
            out@.len() + rest@.len() == v@.len(),
        decreases rest@.len(),
    {
        let ghost rest0 = rest@;
        let s = rest.pop().unwrap();
        proof {
            assert(rest0 =~= rest@.push(s));
            vstd::seq_lib::to_multiset_build(rest@, s);
            assert(rest0.to_multiset() =~= rest@.to_multiset().insert(s));
        }
        let mut k: usize = 0;
        while k < out.len() && out[k].fitness <= s.fitness
            invariant
                k <= out@.len(),
                forall|i: int| 0 <= i < k ==> #[trigger] out@[i].fitness <= s.fitness,
            decreases out@.len() - k,
        {
            k += 1;
        }
        let ghost out0 = out@;
        out.insert(k, s);
        proof {
            vstd::seq_lib::to_multiset_insert(out0, k as int, s);
            assert(out@.to_multiset().add(rest@.to_multiset()) =~= v@.to_multiset());
            assert forall|i: int, j: int| 0 <= i < j < out@.len() implies #[trigger] out@[i].fitness
                <= #[trigger] out@[j].fitness by {
                if j < k {
                    assert(out@[i] == out0[i] && out@[j] == out0[j]);
                } else if j == k {
                    assert(out@[j] == s);
                    assert(out@[i] == out0[i]);
                } else {
                    assert(out@[j] == out0[j - 1]);
                    if i < k {
                        assert(out@[i] == out0[i]);
                    } else if i == k {
                        assert(out@[i] == s);
                        assert(k < out0.len());
                        assert(!(out0[k as int].fitness <= s.fitness));
                        assert(out0[k as int].fitness <= out0[j - 1].fitness);
                    } else {
                        assert(out@[i] == out0[i - 1]);
                    }
                }
            }
        }
    }
    proof {
        assert(rest@.to_multiset() =~= Multiset::<Solution>::empty());
        assert(out@.to_multiset() =~= v@.to_multiset());
    }
    out
}

} // verus!
