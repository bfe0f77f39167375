//! Monte Carlo simulation core for path-dependent payoff estimation,
//! together with scalar risk figures.
//!
//! The crate is organised leaf to root: a seedable deterministic random
//! stream ([`rng`]), distribution samplers over it ([`distributions`]),
//! stochastic process models ([`gbm`], [`multivariate_gbm`]), and the path
//! simulator and path evaluator that orchestrate them ([`monte_carlo`]).
//! [`risk_figures`] holds the scalar risk ratios.
//!
//! All numeric work is done through the scalar abstraction in [`field`], so
//! the algorithms are verified once, for every scalar type a caller
//! supplies.

pub mod distributions;
pub mod error;
pub mod field;
pub mod gbm;
pub mod linalg;
pub mod monte_carlo;
pub mod multivariate_gbm;
pub mod risk_figures;
pub mod rng;
