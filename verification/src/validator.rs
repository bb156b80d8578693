//! Validation and consensus: quorum voting, proof validation, and validator
//! reputation.

pub mod consensus_engine;
pub mod proof_validator;
pub mod reputation_system;
