//! Tournament selection: each draw picks two distinct members of the
//! population uniformly at random and keeps the one with the lower (better)
//! mean squared error. The mating pool is returned as indices into the
//! population, so no solution is copied or fabricated.

use vstd::prelude::*;
use crate::rng::rand_index;
use crate::solution::Solution;

verus! {

/// `w` is the index a single tournament between distinct members `a` and
/// `b` yields: the strictly better one, the second drawn on a tie.
pub open spec fn tournament_winner(pop: Seq<Solution>, a: int, b: int, w: int) -> bool {
    &&& 0 <= a < pop.len()
    &&& 0 <= b < pop.len()
    &&& a != b
    &&& w == (if pop[a].fitness < pop[b].fitness {
        a
    } else {
        b
    })
}

/// `w` is the winner of some tournament between two distinct members.
pub open spec fn is_tournament_winner(pop: Seq<Solution>, w: int) -> bool {
    exists|a: int, b: int| tournament_winner(pop, a, b, w)
}

/// Build a mating pool of exactly `count` indices; each entry is the winner
/// of one independent tournament between two distinct random members.
pub fn tournament_select(
    pop: &Vec<Solution>,
    count: usize,
    rng: &mut rand::rngs::StdRng,
) -> (r: Vec<usize>)
    requires
        pop@.len() >= 2,
    ensures
        r@.len() == count,
        forall|t: int| 0 <= t < count ==> #[trigger] r@[t] < pop@.len(),
        forall|t: int| 0 <= t < count ==> is_tournament_winner(pop@, #[trigger] r@[t] as int),
{
    let mut r: Vec<usize> = Vec::new();
    let mut t: usize = 0;
    while t < count
        invariant
            t <= count,
            r@.len() == t,
            pop@.len() >= 2,
            forall|i: int| 0 <= i < t ==> #[trigger] r@[i] < pop@.len(),
            forall|i: int| 0 <= i < t ==> is_tournament_winner(pop@, #[trigger] r@[i] as int),
        decreases count - t,
    {
        let i1 = rand_index(rng, pop.len());
        // A uniform draw over the one-smaller range, shifted past `i1`,
        // is a uniform draw over the indices distinct from `i1`.
        let i2p = rand_index(rng, pop.len() - 1);
        let i2 = if i2p >= i1 {
            i2p + 1
        } else {
            i2p
        };
        let w = if pop[i1].fitness < pop[i2].fitness {
            i1
        } else {
            i2
        };
        proof {
            assert(tournament_winner(pop@, i1 as int, i2 as int, w as int));
            assert(is_tournament_winner(pop@, w as int));
        }
        r.push(w);
        t += 1;
    }
    r
}

} // verus!
