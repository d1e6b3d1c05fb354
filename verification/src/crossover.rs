//! k-point crossover: cut positions partition the chromosome into segments,
//! and the two offspring take their segments from alternating parents,
//! parent one contributing the first segment. A duplicated cut position
//! collapses a segment to zero length; that is an accepted degenerate case,
//! not an error.

use vstd::prelude::*;
use vstd::multiset::Multiset;
use crate::fx::FX_ONE;
use crate::rng::{rand_between, rand_index};

verus! {

/// How many of the first `k` cut positions lie at or before gene `j`.
pub open spec fn cuts_passed(cuts: Seq<usize>, k: nat, j: int) -> nat
    decreases k,
{
    if k == 0 {
        0
    } else {
        cuts_passed(cuts, (k - 1) as nat, j) + (if cuts[k - 1] <= j {
            1nat
        } else {
            0nat
        })
    }
}

/// Gene `j` comes from the first parent when it lies past an even number of
/// cut positions: each cut at or before `j` switches the contributing parent
/// once, and the first segment comes from parent one.
pub open spec fn from_first_parent(cuts: Seq<usize>, j: int) -> bool {
    cuts_passed(cuts, cuts.len(), j) % 2 == 0
}

/// At position `j`, one offspring carries the first parent's gene and the
/// other the second parent's.
pub open spec fn exchanged_at(
    p1: Seq<i64>,
    p2: Seq<i64>,
    o1: Seq<i64>,
    o2: Seq<i64>,
    j: int,
) -> bool {
    (o1[j] == p1[j] && o2[j] == p2[j]) || (o1[j] == p2[j] && o2[j] == p1[j])
}

/// At every position, one offspring carries the first parent's gene and the
/// other the second parent's.
pub open spec fn pointwise_exchange(
    p1: Seq<i64>,
    p2: Seq<i64>,
    o1: Seq<i64>,
    o2: Seq<i64>,
) -> bool {
    forall|j: int| 0 <= j < p1.len() ==> #[trigger] exchanged_at(p1, p2, o1, o2, j)
}

/// Recombine two equal-length parents along the given cut positions.
/// Offspring one takes gene `j` from parent one exactly when `j` lies past
/// an even number of cuts; offspring two mirrors it.
pub fn recombine(p1: &Vec<i64>, p2: &Vec<i64>, cuts: &Vec<usize>) -> (r: (Vec<i64>, Vec<i64>))
    requires
        p1@.len() == p2@.len(),
    ensures
        r.0@.len() == p1@.len(),
        r.1@.len() == p1@.len(),
        forall|j: int| 0 <= j < p1@.len() ==> #[trigger] r.0@[j] == (if from_first_parent(
            cuts@,
            j,
        ) {
            p1@[j]
        } else {
            p2@[j]
        }),
        forall|j: int| 0 <= j < p1@.len() ==> #[trigger] r.1@[j] == (if from_first_parent(
            cuts@,
            j,
        ) {
            p2@[j]
        } else {
            p1@[j]
        }),
        pointwise_exchange(p1@, p2@, r.0@, r.1@),
{
    let mut o1: Vec<i64> = Vec::new();
    let mut o2: Vec<i64> = Vec::new();
    let mut j: usize = 0;
    while j < p1.len()
        invariant
            p1@.len() == p2@.len(),
            j <= p1@.len(),
            o1@.len() == j,
            o2@.len() == j,
            forall|t: int| 0 <= t < j ==> #[trigger] o1@[t] == (if from_first_parent(cuts@, t) {
                p1@[t]
            } else {
                p2@[t]
            }),
            forall|t: int| 0 <= t < j ==> #[trigger] o2@[t] == (if from_first_parent(cuts@, t) {
                p2@[t]
            } else {
                p1@[t]
            }),
        decreases p1@.len() - j,
    {
        let mut passed: usize = 0;
        let mut k: usize = 0;
        while k < cuts.len()
            invariant
                k <= cuts@.len(),
                passed == cuts_passed(cuts@, k as nat, j as int),
                passed <= k,
            decreases cuts@.len() - k,
        {
            if cuts[k] <= j {
                passed += 1;
            }
            k += 1;
        }
        if passed % 2 == 0 {
            o1.push(p1[j]);
            o2.push(p2[j]);
        } else {
            o1.push(p2[j]);
            o2.push(p1[j]);
        }
        j += 1;
    }
    proof {
        assert forall|t: int| 0 <= t < p1@.len() implies #[trigger] exchanged_at(
            p1@,
            p2@,
            o1@,
            o2@,
            t,
        ) by {
            assert(o1@[t] == (if from_first_parent(cuts@, t) {
                p1@[t]
            } else {
                p2@[t]
            }));
            assert(o2@[t] == (if from_first_parent(cuts@, t) {
                p2@[t]
            } else {
                p1@[t]
            }));
        }
    }
    (o1, o2)
}

/// The offspring pair is exactly the recombination of the two parents along
/// the given cut positions, each of which lies strictly inside the
/// chromosome: offspring one takes gene `j` from parent one when `j` lies
/// past an even number of cuts, and offspring two mirrors it.
pub open spec fn recombined_along(
    p1: Seq<i64>,
    p2: Seq<i64>,
    o1: Seq<i64>,
    o2: Seq<i64>,
    cuts: Seq<usize>,
) -> bool {
    &&& forall|t: int| 0 <= t < cuts.len() ==> 1 <= #[trigger] cuts[t] < p1.len()
    &&& forall|j: int| 0 <= j < p1.len() ==> #[trigger] o1[j] == (if from_first_parent(cuts, j) {
        p1[j]
    } else {
        p2[j]
    })
    &&& forall|j: int| 0 <= j < p1.len() ==> #[trigger] o2[j] == (if from_first_parent(cuts, j) {
        p2[j]
    } else {
        p1[j]
    })
}

/// The offspring pair is a k-point recombination of the parents along some
/// vector of exactly `no_points` in-range cut positions.
pub open spec fn is_recombination(
    p1: Seq<i64>,
    p2: Seq<i64>,
    o1: Seq<i64>,
    o2: Seq<i64>,
    no_points: nat,
) -> bool {
    exists|cuts: Seq<usize>| cuts.len() == no_points && #[trigger] recombined_along(
        p1,
        p2,
        o1,
        o2,
        cuts,
    )
}

/// Copy a chromosome gene for gene.
pub fn copy_genes(v: &Vec<i64>) -> (r: Vec<i64>)
    ensures
        r@ == v@,
{
    let mut r: Vec<i64> = Vec::new();
    let mut j: usize = 0;
    while j < v.len()
        invariant
            j <= v@.len(),
            r@ =~= v@.subrange(0, j as int),
        decreases v@.len() - j,
    {
        r.push(v[j]);
        j += 1;
    }
    proof {
        assert(r@ =~= v@);
    }
    r
}

/// Crossover of two parents. With probability `1 - crossover_rate` the
/// offspring are plain copies of the parents; otherwise `no_points` cut
/// positions are drawn uniformly from `[1, len - 1]` and the parents are
/// recombined along them. `crossover_rate` is a fixed-point probability:
/// the chance that a uniform draw from `[0, FX_ONE)` falls below it.
pub fn crossover(
    p1: &Vec<i64>,
    p2: &Vec<i64>,
    crossover_rate: i64,
    no_points: usize,
    rng: &mut rand::rngs::StdRng,
) -> (r: (Vec<i64>, Vec<i64>))
    requires
        p1@.len() == p2@.len(),
        p1@.len() >= 2,
        1 <= no_points < p1@.len(),
        0 <= crossover_rate <= FX_ONE,
    ensures
        r.0@.len() == p1@.len(),
        r.1@.len() == p1@.len(),
        pointwise_exchange(p1@, p2@, r.0@, r.1@),
        (r.0@ == p1@ && r.1@ == p2@) || is_recombination(
            p1@,
            p2@,
            r.0@,
            r.1@,
            no_points as nat,
        ),
        crossover_rate == FX_ONE ==> is_recombination(p1@, p2@, r.0@, r.1@, no_points as nat),
        crossover_rate == 0 ==> r.0@ == p1@ && r.1@ == p2@,
{
    let draw = rand_between(rng, 0, FX_ONE - 1);
    if draw >= crossover_rate {
        let c1 = copy_genes(p1);
        let c2 = copy_genes(p2);
        proof {
            assert forall|j: int| 0 <= j < p1@.len() implies #[trigger] exchanged_at(
                p1@,
                p2@,
                c1@,
                c2@,
                j,
            ) by {
                assert(c1@[j] == p1@[j]);
                assert(c2@[j] == p2@[j]);
            }
        }
        return (c1, c2);
    }
    let mut cuts: Vec<usize> = Vec::new();
    let mut t: usize = 0;
    while t < no_points
        invariant
            t <= no_points,
            p1@.len() >= 2,
            cuts@.len() == t,
            forall|i: int| 0 <= i < cuts@.len() ==> 1 <= #[trigger] cuts@[i] < p1@.len(),
        decreases no_points - t,
    {
        let c = rand_index(rng, p1.len() - 1) + 1;
        cuts.push(c);
        t += 1;
    }
    let (o1, o2) = recombine(p1, p2, &cuts);
    proof {
        assert(recombined_along(p1@, p2@, o1@, o2@, cuts@));
        assert(is_recombination(p1@, p2@, o1@, o2@, no_points as nat));
    }
    (o1, o2)
}

proof fn lemma_conservation_prefix(p1: Seq<i64>, p2: Seq<i64>, o1: Seq<i64>, o2: Seq<i64>, k: nat)
    requires
        p1.len() == p2.len(),
        o1.len() == p1.len(),
        o2.len() == p1.len(),
        pointwise_exchange(p1, p2, o1, o2),
        k <= p1.len(),
    ensures
        o1.take(k as int).to_multiset().add(o2.take(k as int).to_multiset()) == p1.take(
            k as int,
        ).to_multiset().add(p2.take(k as int).to_multiset()),
    decreases k,
{
    broadcast use vstd::seq_lib::group_to_multiset_ensures;
    broadcast use vstd::multiset::group_multiset_axioms;

    if k == 0 {
        assert(o1.take(0).to_multiset().add(o2.take(0).to_multiset()) =~= p1.take(
            0,
        ).to_multiset().add(p2.take(0).to_multiset()));
    } else {
        let j = k - 1;
        lemma_conservation_prefix(p1, p2, o1, o2, (k - 1) as nat);
        assert(o1.take(k as int) =~= o1.take(j).push(o1[j]));
        assert(o2.take(k as int) =~= o2.take(j).push(o2[j]));
        assert(p1.take(k as int) =~= p1.take(j).push(p1[j]));
        assert(p2.take(k as int) =~= p2.take(j).push(p2[j]));
        vstd::seq_lib::to_multiset_build(o1.take(j), o1[j]);
        vstd::seq_lib::to_multiset_build(o2.take(j), o2[j]);
        vstd::seq_lib::to_multiset_build(p1.take(j), p1[j]);
        vstd::seq_lib::to_multiset_build(p2.take(j), p2[j]);
        assert(exchanged_at(p1, p2, o1, o2, j));
        assert((o1[j] == p1[j] && o2[j] == p2[j]) || (o1[j] == p2[j] && o2[j] == p1[j]));
        assert(o1.take(k as int).to_multiset() == o1.take(j).to_multiset().insert(o1[j]));
        assert(o2.take(k as int).to_multiset() == o2.take(j).to_multiset().insert(o2[j]));
        assert(p1.take(k as int).to_multiset() == p1.take(j).to_multiset().insert(p1[j]));
        assert(p2.take(k as int).to_multiset() == p2.take(j).to_multiset().insert(p2[j]));
        assert forall|v: i64|
            o1.take(k as int).to_multiset().add(o2.take(k as int).to_multiset()).count(v) == p1.take(
                k as int,
            ).to_multiset().add(p2.take(k as int).to_multiset()).count(v) by {
            assert(o1.take(k as int).to_multiset().count(v) == o1.take(j).to_multiset().add(
                Multiset::singleton(o1[j]),
            ).count(v));
            assert(o2.take(k as int).to_multiset().count(v) == o2.take(j).to_multiset().add(
                Multiset::singleton(o2[j]),
            ).count(v));
            assert(p1.take(k as int).to_multiset().count(v) == p1.take(j).to_multiset().add(
                Multiset::singleton(p1[j]),
            ).count(v));
            assert(p2.take(k as int).to_multiset().count(v) == p2.take(j).to_multiset().add(
                Multiset::singleton(p2[j]),
            ).count(v));
            assert(o1.take(j).to_multiset().add(o2.take(j).to_multiset()).count(v) == p1.take(
                j,
            ).to_multiset().add(p2.take(j).to_multiset()).count(v));
            assert(Multiset::singleton(o1[j]).count(v) + Multiset::singleton(o2[j]).count(v)
                == Multiset::singleton(p1[j]).count(v) + Multiset::singleton(p2[j]).count(v));
        }
        assert(o1.take(k as int).to_multiset().add(o2.take(k as int).to_multiset()) =~= p1.take(
            k as int,
        ).to_multiset().add(p2.take(k as int).to_multiset()));
    }
}

/// Conservation of genetic material: when every position is an exchange
/// between the two parents, the genes of both offspring taken together are
/// the same multiset as the genes of both parents taken together.
pub proof fn lemma_gene_conservation(p1: Seq<i64>, p2: Seq<i64>, o1: Seq<i64>, o2: Seq<i64>)
    requires
        p1.len() == p2.len(),
        o1.len() == p1.len(),
        o2.len() == p1.len(),
        pointwise_exchange(p1, p2, o1, o2),
    ensures
        o1.to_multiset().add(o2.to_multiset()) == p1.to_multiset().add(p2.to_multiset()),
{
    let n = p1.len();
    lemma_conservation_prefix(p1, p2, o1, o2, n);
    assert(o1.take(n as int) =~= o1);
    assert(o2.take(n as int) =~= o2);
    assert(p1.take(n as int) =~= p1);
    assert(p2.take(n as int) =~= p2);
}

} // verus!
