use polyfit_ga::crossover::{crossover, recombine};
use polyfit_ga::engine::{Engine, GaConfig};
use polyfit_ga::fitness::{mse, predicted, Point};
use polyfit_ga::fx::{fx_add, fx_mul, fx_sub, FX_ONE};
use polyfit_ga::mutation::{mutate, ShrinkRule};
use polyfit_ga::select::tournament_select;
use polyfit_ga::solution::{sort_by_fitness_asc, Solution};
use polyfit_ga::GaError;

fn fx(v: f64) -> i64 {
    (v * FX_ONE as f64).round() as i64
}

fn seed_rng(seed: u64) -> rand::rngs::StdRng {
    <rand::rngs::StdRng as rand::SeedableRng>::seed_from_u64(seed)
}

fn to_f(v: i64) -> f64 {
    v as f64 / FX_ONE as f64
}

/// The non-uniform shrink factor of the reference mutation schedule:
/// r ^ ((1 - g / max_g) ^ b), computed in floating point.
struct PowShrink;

impl ShrinkRule for PowShrink {
    fn shrink(&mut self, r: i64, g: u64, max_g: u64, b: i64) -> i64 {
        let rf = to_f(r);
        let e = (1.0 - g as f64 / max_g as f64).powf(to_f(b));
        fx(rf.powf(e))
    }
}

fn base_config() -> GaConfig {
    GaConfig {
        pop_size: 20,
        degree: 2,
        lower_bound: fx(-10.0),
        upper_bound: fx(10.0),
        max_generations: 10,
        crossover_rate: fx(0.9),
        crossover_points: 2,
        mutation_rate: fx(0.05),
        dependency_factor: fx(2.5),
        tournament_size: 2,
        elite_count: 2,
    }
}

fn eval(c: &Vec<i64>, pts: &Vec<Point>) -> i64 {
    mse(c, pts).unwrap()
}

fn sorted_genes(a: &Vec<i64>, b: &Vec<i64>) -> Vec<i64> {
    let mut all: Vec<i64> = Vec::new();
    all.extend_from_slice(a);
    all.extend_from_slice(b);
    all.sort();
    all
}

#[test]
fn perfect_fit_has_zero_fitness() {
    // y = 2x at every point: the mean squared error is exactly zero.
    let c: Vec<i64> = vec![0, fx(2.0)];
    let pts = vec![
        Point { x: 0, y: 0 },
        Point { x: fx(1.0), y: fx(2.0) },
        Point { x: fx(2.0), y: fx(4.0) },
    ];
    assert_eq!(mse(&c, &pts), Ok(0));
}

#[test]
fn fitness_exact_constant_offset() {
    // Constant polynomial 1 against the single point (0, 0): the squared
    // deviation is exactly one.
    let c: Vec<i64> = vec![FX_ONE];
    let pts = vec![Point { x: 0, y: 0 }];
    assert_eq!(mse(&c, &pts), Ok(FX_ONE));
}

#[test]
fn fitness_exact_mean_of_two_points() {
    // Zero polynomial against (0, 0) and (0, 1): squared errors 0 and 1,
    // mean one half.
    let c: Vec<i64> = vec![0];
    let pts = vec![Point { x: 0, y: 0 }, Point { x: 0, y: FX_ONE }];
    assert_eq!(mse(&c, &pts), Ok(FX_ONE / 2));
}

#[test]
fn predicted_evaluates_polynomial() {
    // 1 + 2x + 3x^2 at x = 2: exactly 17.
    let c: Vec<i64> = vec![fx(1.0), fx(2.0), fx(3.0)];
    assert_eq!(predicted(&c, fx(2.0)), fx(17.0));
    // The constant term alone at any x.
    let k: Vec<i64> = vec![fx(-4.5)];
    assert_eq!(predicted(&k, fx(123.0)), fx(-4.5));
}

#[test]
fn fitness_rejects_empty_point_set() {
    let c: Vec<i64> = vec![0, FX_ONE];
    let pts: Vec<Point> = Vec::new();
    assert_eq!(mse(&c, &pts), Err(GaError::EmptyPointSet));
}

#[test]
fn fixed_point_ops_exact_values() {
    assert_eq!(fx_add(fx(1.5), fx(2.25)), fx(3.75));
    assert_eq!(fx_sub(fx(1.0), fx(3.0)), fx(-2.0));
    assert_eq!(fx_mul(fx(1.5), fx(2.0)), fx(3.0));
    assert_eq!(fx_mul(fx(-1.5), fx(2.0)), fx(-3.0));
    assert_eq!(fx_add(i64::MAX, 1), i64::MAX);
}

#[test]
fn initializer_respects_shape_and_bounds() {
    let mut cfg = base_config();
    cfg.pop_size = 10;
    cfg.degree = 3;
    cfg.lower_bound = fx(-2.5);
    cfg.upper_bound = fx(2.5);
    let e = Engine::new(cfg).unwrap();
    let mut rng = seed_rng(7);
    let pop = e.initialize_population(&mut rng);
    assert_eq!(pop.len(), 10);
    for c in &pop {
        assert_eq!(c.len(), 4);
        for &g in c {
            assert!(fx(-2.5) <= g && g <= fx(2.5));
        }
    }
}

#[test]
fn initializer_degenerate_equal_bounds() {
    // lower == upper is valid; every gene collapses to that single value.
    let mut cfg = base_config();
    cfg.lower_bound = fx(1.25);
    cfg.upper_bound = fx(1.25);
    let e = Engine::new(cfg).unwrap();
    let mut rng = seed_rng(3);
    let pop = e.initialize_population(&mut rng);
    for c in &pop {
        for &g in c {
            assert_eq!(g, fx(1.25));
        }
    }
}

#[test]
fn initializer_draws_vary() {
    // A generator that ignored its range or returned a constant would fail
    // this: across a wide range the drawn genes differ.
    let e = Engine::new(base_config()).unwrap();
    let mut rng = seed_rng(11);
    let pop = e.initialize_population(&mut rng);
    let first = pop[0][0];
    let mut all_same = true;
    for c in &pop {
        for &g in c {
            if g != first {
                all_same = false;
            }
        }
    }
    assert!(!all_same);
}

#[test]
fn crossover_rate_zero_identity() {
    let p1: Vec<i64> = vec![fx(1.0), fx(2.0), fx(3.0), fx(4.0)];
    let p2: Vec<i64> = vec![fx(5.0), fx(6.0), fx(7.0), fx(8.0)];
    let mut rng = seed_rng(5);
    let (o1, o2) = crossover(&p1, &p2, 0, 1, &mut rng);
    assert_eq!(o1, p1);
    assert_eq!(o2, p2);
}

#[test]
fn crossover_conserves_genes() {
    // Certain crossover with a single cut point: lengths are preserved and
    // the offspring together hold exactly the parents' genes.
    let p1: Vec<i64> = vec![fx(1.0), fx(2.0), fx(3.0), fx(4.0)];
    let p2: Vec<i64> = vec![fx(5.0), fx(6.0), fx(7.0), fx(8.0)];
    let mut rng = seed_rng(9);
    for _ in 0..20 {
        let (o1, o2) = crossover(&p1, &p2, FX_ONE, 1, &mut rng);
        assert_eq!(o1.len(), 4);
        assert_eq!(o2.len(), 4);
        assert_eq!(sorted_genes(&o1, &o2), sorted_genes(&p1, &p2));
    }
}

#[test]
fn recombine_single_cut_exact() {
    let p1: Vec<i64> = vec![10, 11, 12, 13];
    let p2: Vec<i64> = vec![20, 21, 22, 23];
    let cuts: Vec<usize> = vec![2];
    let (o1, o2) = recombine(&p1, &p2, &cuts);
    assert_eq!(o1, vec![10, 11, 22, 23]);
    assert_eq!(o2, vec![20, 21, 12, 13]);
}

#[test]
fn recombine_duplicate_cut_collapses_segment() {
    // Two cuts at the same position enclose a zero-length segment: the
    // switches cancel and the offspring equal the parents.
    let p1: Vec<i64> = vec![10, 11, 12, 13];
    let p2: Vec<i64> = vec![20, 21, 22, 23];
    let cuts: Vec<usize> = vec![2, 2];
    let (o1, o2) = recombine(&p1, &p2, &cuts);
    assert_eq!(o1, p1);
    assert_eq!(o2, p2);
}

#[test]
fn recombine_two_cuts_exact() {
    let p1: Vec<i64> = vec![10, 11, 12, 13, 14];
    let p2: Vec<i64> = vec![20, 21, 22, 23, 24];
    let cuts: Vec<usize> = vec![1, 3];
    let (o1, o2) = recombine(&p1, &p2, &cuts);
    assert_eq!(o1, vec![10, 21, 22, 13, 14]);
    assert_eq!(o2, vec![20, 11, 12, 23, 24]);
}

#[test]
fn mutation_stays_in_bounds() {
    // Mutate every gene with certainty, at the first and the last
    // generation: the result never leaves the configured bounds.
    let lb = fx(-1.0);
    let ub = fx(1.0);
    let c: Vec<i64> = vec![fx(-1.0), fx(-0.5), 0, fx(0.5), fx(1.0)];
    let mut rule = PowShrink;
    for g in [1u64, 5, 10] {
        let mut rng = seed_rng(100 + g);
        let m = mutate(&c, g, 10, lb, ub, FX_ONE, fx(2.5), &mut rng, &mut rule);
        assert_eq!(m.len(), c.len());
        for &gene in &m {
            assert!(lb <= gene && gene <= ub);
        }
    }
}

#[test]
fn mutation_rate_zero_identity() {
    let c: Vec<i64> = vec![fx(-3.0), fx(0.25), fx(9.5)];
    let mut rule = PowShrink;
    let mut rng = seed_rng(17);
    let m = mutate(&c, 1, 10, fx(-10.0), fx(10.0), 0, fx(2.5), &mut rng, &mut rule);
    assert_eq!(m, c);
}

#[test]
fn tournament_returns_requested_count() {
    let mut pop: Vec<Solution> = Vec::new();
    for i in 0..6 {
        pop.push(Solution { chromosome: vec![fx(i as f64), 0], fitness: fx(i as f64) });
    }
    let mut rng = seed_rng(23);
    let sel = tournament_select(&pop, 9, &mut rng);
    assert_eq!(sel.len(), 9);
    for &i in &sel {
        assert!(i < pop.len());
    }
}

#[test]
fn tournament_prefers_better_fitness() {
    // With two members, every tournament drawing both must keep the better
    // one; the clearly worse member can never dominate the pool.
    let pop = vec![
        Solution { chromosome: vec![0, 0], fitness: 0 },
        Solution { chromosome: vec![FX_ONE, 0], fitness: fx(100.0) },
    ];
    let mut rng = seed_rng(29);
    let sel = tournament_select(&pop, 50, &mut rng);
    for &i in &sel {
        assert_eq!(i, 0);
    }
}

#[test]
fn elitism_keeps_best_fitness_from_worsening() {
    let cfg = base_config();
    let e = Engine::new(cfg).unwrap();
    let pts = vec![
        Point { x: 0, y: fx(1.0) },
        Point { x: fx(1.0), y: fx(3.0) },
        Point { x: fx(2.0), y: fx(5.0) },
    ];
    let mut rng = seed_rng(31);
    let mut rule = PowShrink;
    let chroms = e.initialize_population(&mut rng);
    let mut sols: Vec<Solution> = Vec::new();
    for c in chroms {
        let f = eval(&c, &pts);
        sols.push(Solution { chromosome: c, fitness: f });
    }
    let mut pop = sort_by_fitness_asc(sols);
    for g in 1..=cfg.max_generations {
        let best_before = pop[0].fitness;
        pop = e.next_generation(pop, g, &pts, &mut rng, &mut rule);
        assert!(pop[0].fitness <= best_before);
    }
}

#[test]
fn deterministic_given_seed() {
    let cfg = base_config();
    let e = Engine::new(cfg).unwrap();
    let pts = vec![
        Point { x: 0, y: 0 },
        Point { x: fx(1.0), y: fx(2.0) },
        Point { x: fx(2.0), y: fx(4.0) },
    ];
    let mut rng1 = seed_rng(42);
    let mut rule1 = PowShrink;
    let s1 = e.run(&pts, &mut rng1, &mut rule1).unwrap();
    let mut rng2 = seed_rng(42);
    let mut rule2 = PowShrink;
    let s2 = e.run(&pts, &mut rng2, &mut rule2).unwrap();
    assert_eq!(s1.chromosome, s2.chromosome);
    assert_eq!(s1.fitness, s2.fitness);
}

#[test]
fn different_seeds_diverge() {
    let cfg = base_config();
    let e = Engine::new(cfg).unwrap();
    let pts = vec![
        Point { x: 0, y: 0 },
        Point { x: fx(1.0), y: fx(2.0) },
    ];
    let mut rng1 = seed_rng(1);
    let mut rule1 = PowShrink;
    let s1 = e.run(&pts, &mut rng1, &mut rule1).unwrap();
    let mut rng2 = seed_rng(2);
    let mut rule2 = PowShrink;
    let s2 = e.run(&pts, &mut rng2, &mut rule2).unwrap();
    assert_ne!(s1.chromosome, s2.chromosome);
}

#[test]
fn end_to_end_converges_to_line() {
    // Fit degree 1 against y = 2x: the run must reach a mean squared error
    // below 1e-3 and a chromosome near [0, 2].
    let cfg = GaConfig {
        pop_size: 50,
        degree: 1,
        lower_bound: fx(-10.0),
        upper_bound: fx(10.0),
        max_generations: 100,
        crossover_rate: fx(0.9),
        crossover_points: 1,
        mutation_rate: fx(0.03),
        dependency_factor: fx(2.5),
        tournament_size: 2,
        elite_count: 2,
    };
    let e = Engine::new(cfg).unwrap();
    let pts = vec![
        Point { x: 0, y: 0 },
        Point { x: fx(1.0), y: fx(2.0) },
        Point { x: fx(2.0), y: fx(4.0) },
    ];
    let mut rng = seed_rng(2024);
    let mut rule = PowShrink;
    let s = e.run(&pts, &mut rng, &mut rule).unwrap();
    assert!(to_f(s.fitness) < 1e-3, "fitness {}", to_f(s.fitness));
    assert!(to_f(s.chromosome[0]).abs() < 0.1);
    assert!((to_f(s.chromosome[1]) - 2.0).abs() < 0.1);
}

#[test]
fn run_rejects_empty_point_set() {
    let e = Engine::new(base_config()).unwrap();
    let pts: Vec<Point> = Vec::new();
    let mut rng = seed_rng(1);
    let mut rule = PowShrink;
    assert_eq!(e.run(&pts, &mut rng, &mut rule).err(), Some(GaError::EmptyPointSet));
}

#[test]
fn config_validation_catches_each_fault() {
    assert!(Engine::new(base_config()).is_ok());

    let mut cfg = base_config();
    cfg.pop_size = 1;
    assert_eq!(Engine::new(cfg).err(), Some(GaError::InvalidConfiguration));

    let mut cfg = base_config();
    cfg.elite_count = cfg.pop_size;
    assert_eq!(Engine::new(cfg).err(), Some(GaError::InvalidConfiguration));

    let mut cfg = base_config();
    cfg.max_generations = 0;
    assert_eq!(Engine::new(cfg).err(), Some(GaError::InvalidConfiguration));

    let mut cfg = base_config();
    cfg.crossover_points = cfg.degree + 1;
    assert_eq!(Engine::new(cfg).err(), Some(GaError::InvalidConfiguration));

    let mut cfg = base_config();
    cfg.crossover_points = 0;
    assert_eq!(Engine::new(cfg).err(), Some(GaError::InvalidConfiguration));

    let mut cfg = base_config();
    cfg.tournament_size = 1;
    assert_eq!(Engine::new(cfg).err(), Some(GaError::InvalidConfiguration));

    let mut cfg = base_config();
    cfg.lower_bound = fx(1.0);
    cfg.upper_bound = fx(-1.0);
    assert_eq!(Engine::new(cfg).err(), Some(GaError::InvalidConfiguration));

    let mut cfg = base_config();
    cfg.crossover_rate = FX_ONE + 1;
    assert_eq!(Engine::new(cfg).err(), Some(GaError::InvalidConfiguration));

    let mut cfg = base_config();
    cfg.mutation_rate = -1;
    assert_eq!(Engine::new(cfg).err(), Some(GaError::InvalidConfiguration));
}

#[test]
fn sort_orders_by_fitness_ascending() {
    let sols = vec![
        Solution { chromosome: vec![0, 0], fitness: fx(5.0) },
        Solution { chromosome: vec![0, 0], fitness: fx(1.0) },
        Solution { chromosome: vec![0, 0], fitness: fx(3.0) },
        Solution { chromosome: vec![0, 0], fitness: fx(1.0) },
    ];
    let sorted = sort_by_fitness_asc(sols);
    assert_eq!(sorted.len(), 4);
    let fits: Vec<i64> = sorted.iter().map(|s| s.fitness).collect();
    assert_eq!(fits, vec![fx(1.0), fx(1.0), fx(3.0), fx(5.0)]);
}
