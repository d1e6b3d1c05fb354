//! The generational loop: selection, crossover, mutation, elitism and
//! replacement, run for a fixed number of generations over a population of
//! constant size kept sorted by fitness ascending.

use vstd::prelude::*;
use crate::GaError;
use crate::crossover::{copy_genes, crossover, pointwise_exchange};
use crate::fitness::{mse_nonempty, Point};
use crate::fx::FX_ONE;
use crate::mutation::{mutate, ShrinkRule};
use crate::rng::rand_between;
use crate::select::tournament_select;
use crate::solution::{genes_within, lemma_permutation_members, sol_wf, sort_by_fitness_asc,
    sorted_by_fitness, take_elites, Solution};

verus! {

/// Configuration of one run. Rates are fixed-point probabilities in
/// `[0, FX_ONE]`; bounds and the dependency factor are fixed-point reals.
#[derive(Clone, Copy, Debug, PartialEq, Eq, Structural)]
pub struct GaConfig {
    pub pop_size: usize,
    pub degree: usize,
    pub lower_bound: i64,
    pub upper_bound: i64,
    pub max_generations: u64,
    pub crossover_rate: i64,
    pub crossover_points: usize,
    pub mutation_rate: i64,
    pub dependency_factor: i64,
    pub tournament_size: usize,
    pub elite_count: usize,
}

/// Chromosome length fixed by the configuration: one gene per coefficient
/// of a degree-`degree` polynomial.
pub open spec fn chrom_len(cfg: GaConfig) -> nat {
    cfg.degree as nat + 1
}

/// What a valid configuration looks like: enough members for selection and
/// elitism, at least one generation, cut points that fit inside the
/// chromosome, bounds in order, rates within `[0, FX_ONE]`, and sizes small
/// enough for the machine's index arithmetic.
pub open spec fn config_valid(cfg: GaConfig) -> bool {
    &&& 2 <= cfg.pop_size
    &&& cfg.pop_size < usize::MAX
    &&& cfg.elite_count < cfg.pop_size
    &&& 1 <= cfg.max_generations
    &&& cfg.lower_bound <= cfg.upper_bound
    &&& 0 <= cfg.crossover_rate <= FX_ONE
    &&& 0 <= cfg.mutation_rate <= FX_ONE
    &&& 1 <= cfg.crossover_points <= cfg.degree
    &&& cfg.degree < usize::MAX
    &&& 2 <= cfg.tournament_size <= cfg.pop_size
}

/// All members of a population are well formed for this configuration and
/// point set.
pub open spec fn pop_wf(s: Seq<Solution>, cfg: GaConfig, pts: Seq<Point>) -> bool {
    forall|i: int| 0 <= i < s.len() ==> sol_wf(
        #[trigger] s[i],
        chrom_len(cfg),
        cfg.lower_bound,
        cfg.upper_bound,
        pts,
    )
}

/// The engine: a validated configuration and the generational algorithm.
pub struct Engine {
    pub config: GaConfig,
}

impl Engine {
    /// Validate a configuration once; every run of the engine then relies
    /// on it. Fails exactly on the configurations `config_valid` rejects.
    pub fn new(config: GaConfig) -> (r: Result<Engine, GaError>)
        ensures
            r is Ok <==> config_valid(config),
            r matches Ok(e) ==> e.config == config,
            r matches Err(er) ==> er == GaError::InvalidConfiguration,
    {
        if 2 <= config.pop_size && config.pop_size < usize::MAX && config.elite_count
            < config.pop_size && 1 <= config.max_generations && config.lower_bound
            <= config.upper_bound && 0 <= config.crossover_rate && config.crossover_rate <= FX_ONE
            && 0 <= config.mutation_rate && config.mutation_rate <= FX_ONE && 1
            <= config.crossover_points && config.crossover_points <= config.degree && config.degree
            < usize::MAX && 2 <= config.tournament_size && config.tournament_size
            <= config.pop_size {
            Ok(Engine { config })
        } else {
            Err(GaError::InvalidConfiguration)
        }
    }

    /// Draw the initial population: `pop_size` chromosomes of length
    /// `degree + 1`, every gene uniform over `[lower_bound, upper_bound]`.
    pub fn initialize_population(&self, rng: &mut rand::rngs::StdRng) -> (r: Vec<Vec<i64>>)
        requires
            config_valid(self.config),
        ensures
            r@.len() == self.config.pop_size,
            forall|i: int| 0 <= i < r@.len() ==> (#[trigger] r@[i])@.len() == chrom_len(
                self.config,
            ),
            forall|i: int| 0 <= i < r@.len() ==> genes_within(
                (#[trigger] r@[i])@,
                self.config.lower_bound,
                self.config.upper_bound,
            ),
    {
        let cfg = self.config;
        let clen = cfg.degree + 1;
        let mut r: Vec<Vec<i64>> = Vec::new();
        let mut p: usize = 0;
        while p < cfg.pop_size
            invariant
                p <= cfg.pop_size,
                r@.len() == p,
                config_valid(self.config),
                cfg == self.config,
                clen == chrom_len(cfg),
                forall|i: int| 0 <= i < p ==> (#[trigger] r@[i])@.len() == chrom_len(cfg),
                forall|i: int| 0 <= i < p ==> genes_within(
                    (#[trigger] r@[i])@,
                    cfg.lower_bound,
                    cfg.upper_bound,
                ),
            decreases cfg.pop_size - p,
        {
            let mut c: Vec<i64> = Vec::new();
            let mut j: usize = 0;
            while j < clen
                invariant
                    j <= clen,
                    c@.len() == j,
                    cfg.lower_bound <= cfg.upper_bound,
                    genes_within(c@, cfg.lower_bound, cfg.upper_bound),
                decreases clen - j,
            {
                let gene = rand_between(rng, cfg.lower_bound, cfg.upper_bound);
                c.push(gene);
                j += 1;
            }
            r.push(c);
            p += 1;
        }
        r
    }

    /// One generation: select a mating pool, recombine consecutive pairs,
    /// trim the offspring to the non-elite slots, mutate them, re-evaluate
    /// their fitness, carry the elites over unchanged, and sort the new
    /// population. With at least one elite, the best fitness never worsens
    /// from one generation to the next.
    pub fn next_generation<S: ShrinkRule>(
        &self,
        pop: Vec<Solution>,
        g: u64,
        pts: &Vec<Point>,
        rng: &mut rand::rngs::StdRng,
        rule: &mut S,
    ) -> (r: Vec<Solution>)
        requires
            config_valid(self.config),
            pts@.len() >= 1,
            1 <= g <= self.config.max_generations,
            pop@.len() == self.config.pop_size,
            sorted_by_fitness(pop@),
            pop_wf(pop@, self.config, pts@),
        ensures
            r@.len() == self.config.pop_size,
            sorted_by_fitness(r@),
            pop_wf(r@, self.config, pts@),
            forall|i: int| 0 <= i < self.config.elite_count ==> r@.contains(#[trigger] pop@[i]),
            self.config.elite_count >= 1 ==> r@[0].fitness <= pop@[0].fitness,
    {
        let cfg = self.config;
        let slots = cfg.pop_size - cfg.elite_count;
        let mating_n = slots + (slots % 2);
        let sel = tournament_select(&pop, mating_n, rng);
        let mut offspring: Vec<Vec<i64>> = Vec::new();
        let mut pair: usize = 0;
        while pair < mating_n / 2
            invariant
                pair <= mating_n / 2,
                mating_n == sel@.len(),
                mating_n <= cfg.pop_size + 1,
                offspring@.len() == 2 * pair,
                config_valid(self.config),
                cfg == self.config,
                pop@.len() == cfg.pop_size,
                pop_wf(pop@, cfg, pts@),
                forall|t: int| 0 <= t < sel@.len() ==> #[trigger] sel@[t] < pop@.len(),
                forall|i: int| 0 <= i < offspring@.len() ==> (#[trigger] offspring@[i])@.len()
                    == chrom_len(cfg),
                forall|i: int| 0 <= i < offspring@.len() ==> genes_within(
                    (#[trigger] offspring@[i])@,
                    cfg.lower_bound,
                    cfg.upper_bound,
                ),
            decreases mating_n / 2 - pair,
        {
            let a = sel[2 * pair];
            let b = sel[2 * pair + 1];
            let (o1, o2) = crossover(
                &pop[a].chromosome,
                &pop[b].chromosome,
                cfg.crossover_rate,
                cfg.crossover_points,
                rng,
            );
            proof {
                let pa = pop@[a as int].chromosome@;
                let pb = pop@[b as int].chromosome@;
                assert(pointwise_exchange(pa, pb, o1@, o2@));
                assert(genes_within(pa, cfg.lower_bound, cfg.upper_bound));
                assert(genes_within(pb, cfg.lower_bound, cfg.upper_bound));
                assert forall|j: int| 0 <= j < o1@.len() implies cfg.lower_bound <= #[trigger] o1@[j]
                    <= cfg.upper_bound by {
                    assert(crate::crossover::exchanged_at(pa, pb, o1@, o2@, j));
                }
                assert forall|j: int| 0 <= j < o2@.len() implies cfg.lower_bound <= #[trigger] o2@[j]
                    <= cfg.upper_bound by {
                    assert(crate::crossover::exchanged_at(pa, pb, o1@, o2@, j));
                }
            }
            offspring.push(o1);
            offspring.push(o2);
            pair += 1;
        }
        offspring.truncate(slots);
        let ghost pop0 = pop@;
        let mut next: Vec<Solution> = take_elites(pop, cfg.elite_count);
        let mut t: usize = 0;
        while t < offspring.len()
            invariant
                t <= offspring@.len(),
                next@.len() == cfg.elite_count + t,
                config_valid(self.config),
                cfg == self.config,
                pts@.len() >= 1,
                forall|i: int| 0 <= i < offspring@.len() ==> (#[trigger] offspring@[i])@.len()
                    == chrom_len(cfg),
                forall|i: int| 0 <= i < offspring@.len() ==> genes_within(
                    (#[trigger] offspring@[i])@,
                    cfg.lower_bound,
                    cfg.upper_bound,
                ),
                pop_wf(next@, cfg, pts@),
                forall|i: int| 0 <= i < cfg.elite_count ==> #[trigger] next@[i] == pop0[i],
            decreases offspring@.len() - t,
        {
            let m = mutate(
                &offspring[t],
                g,
                cfg.max_generations,
                cfg.lower_bound,
                cfg.upper_bound,
                cfg.mutation_rate,
                cfg.dependency_factor,
                rng,
                rule,
            );
            let f = mse_nonempty(&m, pts);
            next.push(Solution { chromosome: m, fitness: f });
            t += 1;
        }
        let sorted = sort_by_fitness_asc(next);
        proof {
            lemma_permutation_members(next@, sorted@);
            assert forall|i: int| 0 <= i < sorted@.len() implies sol_wf(
                #[trigger] sorted@[i],
                chrom_len(cfg),
                cfg.lower_bound,
                cfg.upper_bound,
                pts@,
            ) by {
                assert(next@.contains(sorted@[i]));
                let w = choose|w: int| 0 <= w < next@.len() && next@[w] == sorted@[i];
                assert(sol_wf(next@[w], chrom_len(cfg), cfg.lower_bound, cfg.upper_bound, pts@));
            }
            lemma_permutation_members(sorted@, next@);
            assert forall|i: int| 0 <= i < cfg.elite_count implies sorted@.contains(
                #[trigger] pop0[i],
            ) by {
                assert(next@[i] == pop0[i]);
                assert(sorted@.contains(next@[i]));
            }
            if cfg.elite_count >= 1 {
                assert(sorted@.contains(next@[0]));
                let w = choose|w: int| 0 <= w < sorted@.len() && sorted@[w] == next@[0];
                assert(sorted@[0].fitness <= sorted@[w].fitness);
                assert(sorted@[w].fitness == pop0[0].fitness);
            }
        }
        sorted
    }

    /// Run the whole algorithm: draw and evaluate an initial population,
    /// then apply `max_generations` generational steps and return the best
    /// solution of the final population. Fails exactly when the point set
    /// is empty; the returned solution always carries the configured
    /// chromosome shape, genes within bounds, and a fitness equal to its
    /// chromosome's mean squared error against the points.
    pub fn run<S: ShrinkRule>(
        &self,
        pts: &Vec<Point>,
        rng: &mut rand::rngs::StdRng,
        rule: &mut S,
    ) -> (r: Result<Solution, GaError>)
        requires
            config_valid(self.config),
        ensures
            r is Ok <==> pts@.len() >= 1,
            r matches Err(e) ==> e == GaError::EmptyPointSet,
            r matches Ok(s) ==> sol_wf(
                s,
                chrom_len(self.config),
                self.config.lower_bound,
                self.config.upper_bound,
                pts@,
            ),
    {
        let cfg = self.config;
        if pts.len() == 0 {
            return Err(GaError::EmptyPointSet);
        }
        let chroms = self.initialize_population(rng);
        let mut sols: Vec<Solution> = Vec::new();
        let mut i: usize = 0;
        while i < chroms.len()
            invariant
                i <= chroms@.len(),
                sols@.len() == i,
                pts@.len() >= 1,
                config_valid(self.config),
                cfg == self.config,
                chroms@.len() == cfg.pop_size,
                forall|k: int| 0 <= k < chroms@.len() ==> (#[trigger] chroms@[k])@.len()
                    == chrom_len(cfg),
                forall|k: int| 0 <= k < chroms@.len() ==> genes_within(
                    (#[trigger] chroms@[k])@,
                    cfg.lower_bound,
                    cfg.upper_bound,
                ),
                pop_wf(sols@, cfg, pts@),
            decreases chroms@.len() - i,
        {
            let c = copy_genes(&chroms[i]);
            let f = mse_nonempty(&c, pts);
            sols.push(Solution { chromosome: c, fitness: f });
            i += 1;
        }
        let mut pop = sort_by_fitness_asc(sols);
        proof {
            lemma_permutation_members(sols@, pop@);
            assert forall|k: int| 0 <= k < pop@.len() implies sol_wf(
                #[trigger] pop@[k],
                chrom_len(cfg),
                cfg.lower_bound,
                cfg.upper_bound,
                pts@,
            ) by {
                assert(sols@.contains(pop@[k]));
                let w = choose|w: int| 0 <= w < sols@.len() && sols@[w] == pop@[k];
                assert(sol_wf(sols@[w], chrom_len(cfg), cfg.lower_bound, cfg.upper_bound, pts@));
            }
        }
        let mut g: u64 = 0;
        while g < cfg.max_generations
            invariant
                g <= cfg.max_generations,
                config_valid(self.config),
                cfg == self.config,
                pts@.len() >= 1,
                pop@.len() == cfg.pop_size,
                sorted_by_fitness(pop@),
                pop_wf(pop@, cfg, pts@),
            decreases cfg.max_generations - g,
        {
            g += 1;
            pop = self.next_generation(pop, g, pts, rng, rule);
        }
        let best = pop.remove(0);
        Ok(best)
    }
}

} // verus!
