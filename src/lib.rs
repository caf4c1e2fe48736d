//! Digital organisms whose genetic identity is a byte sequence tied to an
//! Ed25519 keypair: structural mutation operators, two-point crossover,
//! fixed-point fitness tracking and a population-level evolution engine.
//!
//! Fractional quantities (fitness, rates, scores) are fixed-point integers
//! counted in billionths, see [`fixed::UNIT`].
pub mod bytes;
pub mod crypto;
pub mod dna;
pub mod error;
pub mod evolution;
pub mod fixed;
