//! Proof of Interaction: a block proposer collects a chain of signatures from
//! a committee that a seed selects, and any validator replays the walk.

pub mod rng;
pub mod error;
pub mod encoding;
pub mod hash;
pub mod node;
pub mod committee;
pub mod signature;
pub mod tour;
pub mod validator;
pub mod generator;
pub mod laws;
pub mod pow;
pub mod genesis;
pub mod hex;
pub mod peer;
