//! Benchmarks and endurance tests of a transform tree: what they draw, how they judge, and
//! what they say. Clocks, files, processes and the engine itself are the caller's, which
//! hands in what it measured as plain values.

pub mod differential;
pub mod embed;
pub mod fixture;
pub mod gate;
pub mod mp;
pub mod number;
pub mod order;
pub mod ratio;
pub mod replay;
pub mod report;
pub mod rng;
pub mod scaling;
pub mod soak;
pub mod stats;
pub mod text;
pub mod torture;
