//! Monte-Carlo transport of charge carriers through a crystal's momentum
//! lattice rests on a few exact, discrete ingredients: a deterministic
//! pseudo-random stream that makes every simulation reproducible, the
//! binary-search inversion of monotone cumulative tables, and integer
//! event bookkeeping (scattering counts, angle histograms).  This crate
//! holds those ingredients with machine-checked contracts; the
//! floating-point layers (geometry, dispersion, the equations of motion)
//! live in the surrounding application.

pub mod rng;
pub mod search;
pub mod stats;
