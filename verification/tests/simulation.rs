use rand::Rng;

use pricing::distributions::{MultivariateNormalDistribution, Normal, StandardNormal};
use pricing::error::SimulationError;
use pricing::field::{PseudoField, Scalar};
use pricing::gbm::GeometricBrownianMotion;
use pricing::linalg::{Matrix, VectorPath};
use pricing::monte_carlo::{MonteCarloPathSimulator, PathEvaluator, PathGenerator};
use pricing::rng::SeedRng;

#[derive(Clone, Copy, Debug, PartialEq)]
struct F64(f64);

impl PseudoField for F64 {
    fn add_spec(self, other: Self) -> Self {
        F64(self.0 + other.0)
    }

    fn sub_spec(self, other: Self) -> Self {
        F64(self.0 - other.0)
    }

    fn mul_spec(self, other: Self) -> Self {
        F64(self.0 * other.0)
    }

    fn div_spec(self, other: Self) -> Self {
        F64(self.0 / other.0)
    }

    fn divisible_spec(self, threshold: Option<Self>) -> bool {
        self.is_divisible(threshold)
    }

    fn add(self, other: Self) -> Self {
        F64(self.0 + other.0)
    }

    fn sub(self, other: Self) -> Self {
        F64(self.0 - other.0)
    }

    fn mul(self, other: Self) -> Self {
        F64(self.0 * other.0)
    }

    fn div(self, other: Self) -> Self {
        F64(self.0 / other.0)
    }

    fn is_divisible(&self, tolerance: Option<Self>) -> bool {
        match tolerance {
            Some(tol) => self.0.abs() >= tol.0,
            None => self.0.abs() != 0.0,
        }
    }
}

impl Scalar for F64 {
    fn zero_spec() -> Self {
        F64(0.0)
    }

    fn sqrt_spec(self) -> Self {
        F64(self.0.sqrt())
    }

    fn exp_spec(self) -> Self {
        F64(self.0.exp())
    }

    fn from_count_spec(n: usize) -> Self {
        F64(n as f64)
    }

    fn zero() -> Self {
        F64(0.0)
    }

    fn sqrt(self) -> Self {
        F64(self.0.sqrt())
    }

    fn exp(self) -> Self {
        F64(self.0.exp())
    }

    fn from_count(n: usize) -> Self {
        F64(n as f64)
    }
}

/// The seeded random stream the simulations run on: an HC-128 generator with
/// the ziggurat standard-normal transform.
struct HcNormal(rand_hc::Hc128Rng);

impl SeedRng<F64> for HcNormal {
    fn seeded_spec(seed: u64) -> Self {
        Self::seed_from_u64(seed)
    }

    fn next_spec(mut self) -> (F64, Self) {
        let z = self.next_standard_normal();
        (z, self)
    }

    fn seed_from_u64(seed: u64) -> Self {
        HcNormal(<rand_hc::Hc128Rng as rand::SeedableRng>::seed_from_u64(seed))
    }

    fn next_standard_normal(&mut self) -> F64 {
        F64(self.0.sample(rand_distr::StandardNormal))
    }
}

fn f64s(xs: &[f64]) -> Vec<F64> {
    xs.iter().map(|x| F64(*x)).collect()
}

fn rows(xs: &[&[f64]]) -> Vec<Vec<F64>> {
    xs.iter().map(|r| f64s(r)).collect()
}

#[test]
fn standard_normal_path() {
    let mut rn_generator = HcNormal::seed_from_u64(13241113);
    let samples: Vec<F64> = StandardNormal.sample_path(&mut rn_generator, 100_000);

    let mu = samples.iter().fold(0.0, |acc, z| acc + z.0) / 100_000.0;
    assert_eq!(mu, -0.004556843413074714);

    let variance = samples.iter().fold(0.0, |acc, z| acc + (z.0 - mu).powi(2)) / 100_000.0;
    assert_eq!(variance, 0.9965887881497351);
}

#[test]
fn distributions_sample() {
    let mut rn_generator = HcNormal::seed_from_u64(13241113);
    let mu = f64s(&[0.1, 0.2, 0.3]);

    // 'forgets' the random part
    let cholesky_factor = rows(&[&[0.0, 0.0, 0.0], &[0.0, 0.0, 0.0], &[0.0, 0.0, 0.0]]);
    let mv_normal = MultivariateNormalDistribution::new(mu.clone(), cholesky_factor).unwrap();
    let sample = mv_normal.sample(&mut rn_generator);
    assert_eq!(sample, mu);

    let cholesky_factor = rows(&[&[1.0, 0.5, 0.1], &[0.0, 0.6, 0.7], &[0.0, 0.0, 0.8]]);
    let mv_normal = MultivariateNormalDistribution::new(mu, cholesky_factor).unwrap();
    let sample = mv_normal.sample(&mut rn_generator);
    assert_eq!(
        sample,
        f64s(&[-0.8743027133925354, -0.5306078148397926, 0.4544744348656101])
    );
}

#[test]
fn samples_avg() {
    let mut rn_generator = HcNormal::seed_from_u64(13241114);

    let mu = f64s(&[0.1, 0.2, 0.3]);
    let cholesky_factor = rows(&[&[1.0, 0.5, 0.1], &[0.0, 0.6, 0.7], &[0.0, 0.0, 0.8]]);
    let mv_normal = MultivariateNormalDistribution::new(mu, cholesky_factor).unwrap();
    let samples: Matrix<F64> = mv_normal.sample_path(&mut rn_generator, 100_000);

    assert_eq!(samples.rows.len(), 3);
    assert_eq!(samples.rows[0].len(), 100_000);

    let mut sums = vec![0.0_f64; 3];
    for c in 0..100_000 {
        for i in 0..3 {
            sums[i] += samples.rows[i][c].0;
        }
    }

    // want approx 'assert_eq!(sums / 100_000.0, mu)'
    assert_eq!(sums[0] / 100_000.0, 0.09734041097783784);
    assert_eq!(sums[1] / 100_000.0, 0.20242533842636964);
    assert_eq!(sums[2] / 100_000.0, 0.3057350243384335);
}

#[test]
fn multivariate_gbm_sample() {
    let initial_values = f64s(&[1.0, 2.0, 3.0]);
    let drifts = f64s(&[0.1, 0.2, 0.3]);
    let cholesky_factor = rows(&[&[1.0, 0.5, 0.1], &[0.0, 0.6, 0.7], &[0.0, 0.0, 0.8]]);
    let dt = F64(4.0);

    let mv_gbm = pricing::multivariate_gbm::MultivariateGeometricBrownianMotion::new(
        initial_values.clone(),
        drifts,
        cholesky_factor,
        dt,
    )
    .unwrap();

    let rand_normals = f64s(&[0.1, -0.1, 0.05]);
    let sample = mv_gbm.step(&initial_values, &rand_normals);
    assert_eq!(sample, f64s(&[1.51, 3.5, 6.84]));
}

#[test]
fn multivariate_gbm_basket_stock_price_simulation() {
    let nr_paths = 5_000;
    let nr_steps = 100;

    let initial_values = f64s(&[110.0, 120.0, 130.0]);
    let drifts = f64s(&[0.01, 0.02, 0.03]);
    let cholesky_factor = rows(&[&[1.0, 0.05, 0.1], &[0.0, 0.6, 0.07], &[0.0, 0.0, 1.0]]);
    let dt = F64(1.0 / 100.0);

    let mv_gbm = pricing::multivariate_gbm::MultivariateGeometricBrownianMotion::new(
        initial_values,
        drifts,
        cholesky_factor,
        dt,
    )
    .unwrap();

    let mc_simulator = MonteCarloPathSimulator::new(nr_paths, nr_steps);
    let paths: Vec<Matrix<F64>> =
        mc_simulator.simulate_paths::<F64, HcNormal, Matrix<F64>, _>(42, &mv_gbm);
    assert_eq!(paths.len(), nr_paths);
    assert_eq!(paths[0].rows.len(), 3);
    assert_eq!(paths[0].rows[0].len(), nr_steps + 1);

    let path_eval = PathEvaluator::new(paths);
    let avg_price = path_eval.evaluate_average(|path: &Matrix<F64>| {
        let last = path.rows.iter().map(|row| row[row.len() - 1].0).sum::<f64>();
        Some(F64(last / 3.0))
    });
    assert!(avg_price.unwrap().0 > 0.0);
}

#[test]
fn normal_path_simulation() {
    let sampler = Normal::new(F64(0.5), F64(1.0));
    let mc_simulator = MonteCarloPathSimulator::new(100_000, 100);

    let paths: Vec<Vec<F64>> =
        mc_simulator.simulate_paths::<F64, HcNormal, Vec<F64>, _>(42, &sampler);
    let paths_slice: Vec<Vec<F64>> = paths
        .iter()
        .map(|path| vec![F64(path.iter().fold(0.0, |acc, z| acc + z.0))])
        .collect();

    assert_eq!(paths_slice.len(), 100_000);

    // sum of independent normal(mu, sigma^2) RVs is a normal(n*mu, n*sigma^2) RV
    let path_eval = PathEvaluator::new(paths_slice);
    let avg_price = path_eval.evaluate_average(|path: &Vec<F64>| path.last().cloned());

    assert!((0.5 * 100.0 - avg_price.unwrap().0).abs() < 1e-1);
}

#[test]
fn stock_price_simulation_path_fn() {
    let nr_paths = 100_000;
    let drift = -0.2;
    let vola: f64 = 0.4;
    let s0 = 100.0;
    let nr_steps = 100;
    let tte = 5.0;
    let dt = tte / nr_steps as f64;

    let stock_gbm = GeometricBrownianMotion::new(F64(s0), F64(drift), F64(vola), F64(dt));
    let mc_simulator = MonteCarloPathSimulator::new(nr_paths, nr_steps);

    let paths: Vec<Vec<F64>> = mc_simulator
        .simulate_paths_with::<F64, HcNormal, Vec<F64>, _, Vec<F64>, _>(
            42,
            &StandardNormal,
            |standard_normals: &Vec<F64>| stock_gbm.generate_path(F64(s0), standard_normals),
        );
    assert_eq!(paths.len(), nr_paths);

    // expected value should equal analytic solution
    let path_eval = PathEvaluator::new(paths);
    let avg_delta = path_eval
        .evaluate_average(|path: &Vec<F64>| path.last().map(|p| F64((p.0 / s0).ln())));
    let exp_delta = tte * (drift - vola.powi(2) / 2.0);
    assert!((avg_delta.unwrap().0 - exp_delta).abs() < 1e-1);
}

#[test]
fn no_drift_stock_price_simulation() {
    let nr_paths = 100_000;
    let vola: f64 = 0.4;
    let drift = vola.powi(2) / 2.0;
    let s0 = 100.0;
    let nr_steps = 100;
    let tte = 5.0;
    let dt = tte / nr_steps as f64;

    let stock_gbm = GeometricBrownianMotion::new(F64(s0), F64(drift), F64(vola), F64(dt));
    let mc_simulator = MonteCarloPathSimulator::new(nr_paths, nr_steps);
    let paths: Vec<Vec<F64>> =
        mc_simulator.simulate_paths::<F64, HcNormal, Vec<F64>, _>(42, &stock_gbm);

    let path_eval = PathEvaluator::new(paths);

    let avg_delta = path_eval
        .evaluate_average(|path: &Vec<F64>| path.last().map(|p| F64((p.0 / s0).ln())));
    let exp_delta = tte * (drift - vola.powi(2) / 2.0);
    assert!((avg_delta.unwrap().0 - exp_delta).abs() < 1e-1);
}

#[test]
fn stock_price_simulation() {
    let nr_paths = 100_000;
    let nr_steps = 100;
    let drift = -0.2;
    let vola: f64 = 0.4;
    let s0 = 100.0;
    let tte = 5.0;
    let dt = tte / nr_steps as f64;

    let stock_gbm = GeometricBrownianMotion::new(F64(s0), F64(drift), F64(vola), F64(dt));
    let mc_simulator = MonteCarloPathSimulator::new(nr_paths, nr_steps);
    let normal = Normal::new(F64(0.0), F64(1.0));

    let paths: Vec<Vec<F64>> = mc_simulator
        .simulate_paths_with::<F64, HcNormal, Vec<F64>, _, Vec<F64>, _>(
            53,
            &normal,
            |random_normals: &Vec<F64>| stock_gbm.generate_path(F64(s0), random_normals),
        );
    assert_eq!(paths.len(), nr_paths);

    // expected value should equal analytic solution
    let path_eval = PathEvaluator::new(paths);
    let avg_delta = path_eval
        .evaluate_average(|path: &Vec<F64>| path.last().map(|p| F64((p.0 / s0).ln())));
    let exp_delta = tte * (drift - vola.powi(2) / 2.0);
    assert!((avg_delta.unwrap().0 - exp_delta).abs() < 1e-1);
}

#[test]
fn monte_carlo_path_eval() {
    let paths = vec![f64s(&[1.0, 2.0]), f64s(&[3.0, 4.0]), vec![]];
    let path_eval = PathEvaluator::new(paths);

    let avg = path_eval.evaluate_average(|_path: &Vec<F64>| Some(F64(1.0)));
    assert_eq!(avg.unwrap().0, (1.0 + 1.0 + 1.0) / 3.0);

    let avg = path_eval.evaluate_average(|path: &Vec<F64>| path.first().cloned());
    assert_eq!(avg.unwrap().0, (1.0 + 3.0) / 3.0);

    let avg = path_eval.evaluate_average(|path: &Vec<F64>| path.last().cloned());
    assert_eq!(avg.unwrap().0, (2.0 + 4.0) / 3.0);
}

#[test]
fn monte_carlo2_path_eval() {
    let paths = vec![f64s(&[1.0, 2.0]), f64s(&[3.0, 4.0]), vec![]];
    let path_eval = PathEvaluator::new(paths);

    let avg = path_eval.evaluate_average(|_path: &Vec<F64>| Some(F64(1.0)));
    assert_eq!(avg.unwrap().0, (1.0 + 1.0 + 1.0) / 3.0);

    let avg = path_eval.evaluate_average(|path: &Vec<F64>| path.first().cloned());
    assert_eq!(avg.unwrap().0, (1.0 + 3.0) / 3.0);

    let avg = path_eval.evaluate_average(|path: &Vec<F64>| path.last().cloned());
    assert_eq!(avg.unwrap().0, (2.0 + 4.0) / 3.0);
}

#[test]
fn reproducibility_same_seed_same_paths() {
    let stock_gbm = GeometricBrownianMotion::new(F64(100.0), F64(0.05), F64(0.3), F64(0.01));
    let mc_simulator = MonteCarloPathSimulator::new(1_000, 50);

    let first: Vec<Vec<F64>> =
        mc_simulator.simulate_paths::<F64, HcNormal, Vec<F64>, _>(7, &stock_gbm);
    let second: Vec<Vec<F64>> =
        mc_simulator.simulate_paths::<F64, HcNormal, Vec<F64>, _>(7, &stock_gbm);
    assert_eq!(first, second);

    let third: Vec<Vec<F64>> =
        mc_simulator.simulate_paths::<F64, HcNormal, Vec<F64>, _>(8, &stock_gbm);
    assert_ne!(first, third);
}

#[test]
fn prefix_of_run_is_preserved_when_nr_paths_grows() {
    // path i consumes a seed-deterministic slice of the stream, so a longer
    // run with the same seed reproduces the shorter run as its prefix
    let stock_gbm = GeometricBrownianMotion::new(F64(100.0), F64(0.05), F64(0.3), F64(0.01));
    let short_run: Vec<Vec<F64>> =
        MonteCarloPathSimulator::new(5, 40).simulate_paths::<F64, HcNormal, Vec<F64>, _>(21, &stock_gbm);
    let long_run: Vec<Vec<F64>> =
        MonteCarloPathSimulator::new(10, 40).simulate_paths::<F64, HcNormal, Vec<F64>, _>(21, &stock_gbm);
    assert_eq!(short_run[..], long_run[..5]);
}

#[test]
fn shape_invariant_construction() {
    let mu = f64s(&[0.1, 0.2]);
    let square = rows(&[&[1.0, 0.0], &[0.5, 1.0]]);
    assert!(MultivariateNormalDistribution::new(mu.clone(), square.clone()).is_ok());

    let wide = rows(&[&[1.0, 0.0, 0.0], &[0.5, 1.0, 0.0]]);
    assert!(matches!(
        MultivariateNormalDistribution::new(mu.clone(), wide),
        Err(SimulationError::InvalidDimension)
    ));

    let tall = rows(&[&[1.0, 0.0], &[0.5, 1.0], &[0.0, 0.0]]);
    assert!(matches!(
        MultivariateNormalDistribution::new(mu.clone(), tall),
        Err(SimulationError::InvalidDimension)
    ));

    let iv = f64s(&[100.0, 200.0]);
    let drifts_ok = f64s(&[0.01, 0.02]);
    let drifts_bad = f64s(&[0.01, 0.02, 0.03]);
    assert!(pricing::multivariate_gbm::MultivariateGeometricBrownianMotion::new(
        iv.clone(),
        drifts_ok,
        square.clone(),
        F64(0.1),
    )
    .is_ok());
    assert!(matches!(
        pricing::multivariate_gbm::MultivariateGeometricBrownianMotion::new(
            iv,
            drifts_bad,
            square,
            F64(0.1),
        ),
        Err(SimulationError::InvalidDimension)
    ));
}

#[test]
fn zero_cholesky_returns_mu_for_every_sample() {
    let mu = f64s(&[0.4, -0.7, 12.5]);
    let zero = rows(&[&[0.0, 0.0, 0.0], &[0.0, 0.0, 0.0], &[0.0, 0.0, 0.0]]);
    let mv_normal = MultivariateNormalDistribution::new(mu.clone(), zero).unwrap();

    for seed in 0..5_u64 {
        let mut rn_generator = HcNormal::seed_from_u64(seed);
        for _ in 0..10 {
            let sample = mv_normal.sample(&mut rn_generator);
            assert_eq!(sample, mu);
        }
    }
}

#[test]
fn martingale_zero_drift_gbm() {
    let s0 = 100.0;
    let stock_gbm = GeometricBrownianMotion::new(F64(s0), F64(0.0), F64(0.2), F64(0.01));
    let mc_simulator = MonteCarloPathSimulator::new(100_000, 100);
    let paths: Vec<Vec<F64>> =
        mc_simulator.simulate_paths::<F64, HcNormal, Vec<F64>, _>(42, &stock_gbm);

    let path_eval = PathEvaluator::new(paths);
    let avg_terminal = path_eval
        .evaluate_average(|path: &Vec<F64>| path.last().cloned())
        .unwrap();
    assert!((avg_terminal.0 - s0).abs() / s0 < 0.02);
}

#[test]
fn put_call_parity_monte_carlo() {
    let s0 = 102.0;
    let strike = 100.0;
    let rfr = 0.02;
    let tte = 0.5;
    let vola = 0.2;
    let nr_steps = 100;
    let dt = tte / nr_steps as f64;

    // under the risk neutral measure the drift is the risk-free rate
    let stock_gbm = GeometricBrownianMotion::new(F64(s0), F64(rfr), F64(vola), F64(dt));
    let mc_simulator = MonteCarloPathSimulator::new(100_000, nr_steps);
    let paths: Vec<Vec<F64>> =
        mc_simulator.simulate_paths::<F64, HcNormal, Vec<F64>, _>(42, &stock_gbm);
    let path_eval = PathEvaluator::new(paths);

    let disc_factor = (-rfr * tte as f64).exp();
    let call = path_eval
        .evaluate_average(|path: &Vec<F64>| {
            path.last().map(|p| F64((p.0 - strike).max(0.0) * disc_factor))
        })
        .unwrap()
        .0;
    let put = path_eval
        .evaluate_average(|path: &Vec<F64>| {
            path.last().map(|p| F64((strike - p.0).max(0.0) * disc_factor))
        })
        .unwrap()
        .0;

    let parity = s0 - strike * disc_factor;
    assert!((call - put - parity).abs() < 0.5);
}

#[test]
fn generate_in_place_matches_generate_path() {
    let stock_gbm = GeometricBrownianMotion::new(F64(100.0), F64(0.05), F64(0.3), F64(0.01));
    let mut rn_generator = HcNormal::seed_from_u64(9);
    let standard_normals: Vec<F64> = StandardNormal.sample_path(&mut rn_generator, 250);

    let allocating = stock_gbm.generate_path(F64(100.0), &standard_normals);
    assert_eq!(allocating.len(), 251);
    assert_eq!(allocating[0], F64(100.0));

    let mut in_place = standard_normals.clone();
    stock_gbm.generate_in_place(&mut in_place);
    assert_eq!(in_place.len(), 250);
    for i in 0..in_place.len() {
        assert_eq!(in_place[i], allocating[i + 1]);
    }
}

#[test]
fn apply_in_place_matches_simulate_with() {
    let stock_gbm = GeometricBrownianMotion::new(F64(100.0), F64(0.05), F64(0.3), F64(0.01));
    let mc_simulator = MonteCarloPathSimulator::new(500, 30);

    let with_alloc: Vec<Vec<F64>> = mc_simulator
        .simulate_paths_with::<F64, HcNormal, Vec<F64>, _, Vec<F64>, _>(
            11,
            &StandardNormal,
            |standard_normals: &Vec<F64>| {
                let mut buffer = standard_normals.clone();
                stock_gbm.generate_in_place(&mut buffer);
                buffer
            },
        );
    let in_place: Vec<Vec<F64>> = mc_simulator
        .simulate_paths_apply_in_place::<F64, HcNormal, Vec<F64>, _, _>(
            11,
            &StandardNormal,
            |standard_normals: Vec<F64>| {
                let mut buffer = standard_normals;
                stock_gbm.generate_in_place(&mut buffer);
                buffer
            },
        );
    assert_eq!(with_alloc, in_place);
}

#[test]
fn evaluator_empty_and_undefined() {
    let empty: Vec<Vec<F64>> = vec![];
    let path_eval = PathEvaluator::new(empty);
    assert!(path_eval
        .evaluate_average(|path: &Vec<F64>| path.last().cloned())
        .is_none());

    let degenerate: Vec<Vec<F64>> = vec![vec![], vec![]];
    let path_eval = PathEvaluator::new(degenerate);
    assert!(path_eval
        .evaluate_average(|path: &Vec<F64>| path.last().cloned())
        .is_none());

    let mixed = vec![f64s(&[1.0, 2.0]), vec![], f64s(&[3.0, 4.0])];
    let path_eval = PathEvaluator::new(mixed);
    let values = path_eval.evaluate(|path: &Vec<F64>| path.last().cloned());
    assert_eq!(values, vec![Some(F64(2.0)), None, Some(F64(4.0))]);
}

#[test]
fn transform_path_adds_mu_once_per_column() {
    let mu = f64s(&[1.0, 2.0]);
    let zero = rows(&[&[0.0, 0.0], &[0.0, 0.0]]);
    let mv_normal = MultivariateNormalDistribution::new(mu, zero).unwrap();

    let raw = Matrix::new(rows(&[&[5.0, -3.0, 7.0], &[2.0, 2.0, 2.0]]));
    let out = mv_normal.transform_path(&raw);
    for j in 0..3 {
        assert_eq!(out.rows[0][j], F64(1.0));
        assert_eq!(out.rows[1][j], F64(2.0));
    }
}

#[test]
fn dense_path_matches_vector_path() {
    let initial_values = f64s(&[10.0, 20.0]);
    let drifts = f64s(&[0.01, 0.02]);
    let cholesky_factor = rows(&[&[1.0, 0.3], &[0.0, 0.9]]);
    let mv_gbm = pricing::multivariate_gbm::MultivariateGeometricBrownianMotion::new(
        initial_values,
        drifts,
        cholesky_factor,
        F64(0.25),
    )
    .unwrap();

    let steps = rows(&[&[0.1, -0.2], &[0.3, 0.4], &[-0.5, 0.6], &[0.7, -0.8]]);
    let vector_path = mv_gbm.generate_path(&VectorPath::new(steps.clone()));
    assert_eq!(vector_path.states.len(), 5);

    // the dense form reads its driving draws from columns 1.. of the matrix
    let mut dense_rows = rows(&[&[9.9], &[9.9]]);
    for step in steps.iter() {
        for (i, z) in step.iter().enumerate() {
            dense_rows[i].push(*z);
        }
    }
    let dense = mv_gbm.transform_path(&Matrix::new(dense_rows), 5);
    for j in 0..5 {
        for i in 0..2 {
            assert_eq!(dense.rows[i][j], vector_path.states[j][i]);
        }
    }
}

#[test]
fn simulation_edge_cases() {
    let stock_gbm = GeometricBrownianMotion::new(F64(42.0), F64(0.1), F64(0.2), F64(0.5));

    let no_paths = MonteCarloPathSimulator::new(0, 10);
    let paths: Vec<Vec<F64>> =
        no_paths.simulate_paths::<F64, HcNormal, Vec<F64>, _>(1, &stock_gbm);
    assert!(paths.is_empty());

    let no_steps = MonteCarloPathSimulator::new(3, 0);
    let paths: Vec<Vec<F64>> =
        no_steps.simulate_paths::<F64, HcNormal, Vec<F64>, _>(1, &stock_gbm);
    assert_eq!(paths.len(), 3);
    for path in paths {
        assert_eq!(path, vec![F64(42.0)]);
    }
}

#[test]
fn normal_from_zscore_scales_and_shifts() {
    let normal = Normal::new(F64(2.0), F64(3.0));
    assert_eq!(normal.from_zscore(F64(0.5)), F64(3.5));
    assert_eq!(normal.from_zscore(F64(0.0)), F64(2.0));
    assert_eq!(normal.from_zscore(F64(-1.0)), F64(-1.0));
}

#[test]
fn gbm_steps_are_deterministic() {
    let stock_gbm = GeometricBrownianMotion::new(F64(100.0), F64(0.1), F64(0.2), F64(0.25));
    // S + S * (mu * dt + sigma * sqrt(dt) * z)
    let stepped = stock_gbm.step(F64(100.0), F64(0.5));
    assert_eq!(stepped.0, 100.0 + 100.0 * (0.1 * 0.25 + 0.2 * 0.5 * 0.5));
    // S * exp(dt * (mu - sigma^2 / 2) + sqrt(dt) * sigma * z)
    let analytic = stock_gbm.step_analytic(F64(100.0), F64(0.5));
    assert_eq!(
        analytic.0,
        100.0 * (0.25_f64 * (0.1 - 0.2 * 0.2 / 2.0) + 0.5 * 0.2 * 0.5).exp()
    );
}
