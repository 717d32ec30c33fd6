//! A string-evolution engine: a population of printable-ASCII candidate
//! strings is evolved toward a target string by a genetic algorithm
//! (fitness-proportionate selection, single-point crossover, point mutation).

pub mod gene;
pub mod pool;
mod rng;
