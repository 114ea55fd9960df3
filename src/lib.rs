//! Population-replacement strategies for evolutionary and quality-diversity
//! search: a score-caching organism, elitism comparators, and four solvers
//! (simple replacement, MAP-Elites archive, generalized MAP-Elites grid and a
//! self-adaptive GA) over interchangeable problem domains.

mod random;

pub mod organism;
pub mod problems;
pub mod selection;
pub mod features;
pub mod config;
pub mod util;
pub mod niche;
pub mod grid_ga;
pub mod map_elite;
pub mod simple;
pub mod simple_adaptive;
pub mod onemax;
pub mod travelling_salesman;
