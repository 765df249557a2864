//! Non-interactive zero-knowledge proofs of knowledge of two discrete
//! logarithms satisfying two simultaneous linear relations over pairs of
//! public group generators, via the Fiat-Shamir transform of a Sigma
//! protocol.

pub mod algebra;
pub mod error;
pub mod pok_equality;
pub mod utils;
