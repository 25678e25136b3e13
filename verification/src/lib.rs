//! Kaspa HeavyHash proof-of-work and Stratum job management.

pub mod uint256;
pub mod keccak;
pub mod pow;
pub mod matrix;
pub mod target;
pub mod order;
pub mod miner;
pub mod json;
pub mod encoding;
pub mod stratum;
