//! Shared types, errors, and utilities of the protocol layer.

pub mod crypto;
pub mod error;
pub mod types;
pub mod utils;
