//! Validation of submitted proofs.
//!
//! Each proof type has a structural admission rule on the proof data; the
//! validator applies the rule and counts how many validations it has
//! performed.

use crate::shared::utils::timestamp_millis;
use vstd::prelude::*;

verus! {

/// Types of proofs that can be validated.
#[derive(Clone, Copy, Debug, PartialEq, Eq, Structural)]
pub enum ProofType {
    /// Proof of work.
    WorkProof,
    /// Proof of stake.
    StakeProof,
    /// Proof of a computation's outcome.
    ComputationProof,
    /// Proof of stored data.
    StorageProof,
}

/// A proof submitted for validation.
#[derive(Debug)]
pub struct Proof {
    /// Proof identifier.
    pub id: String,
    /// What kind of proof this is.
    pub proof_type: ProofType,
    /// The proof bytes.
    pub data: Vec<u8>,
    /// When the proof was produced, milliseconds.
    pub timestamp: u64,
    /// Who submitted the proof.
    pub submitter: String,
}

/// Outcome of validating one proof.
#[derive(Debug)]
pub struct ValidationResult {
    /// Whether the proof was accepted.
    pub is_valid: bool,
    /// Why it was refused, when it was.
    pub reason: Option<String>,
    /// When the validation ran, milliseconds.
    pub timestamp: u64,
}

/// The admission rule: a work proof carries at least 32 bytes, a stake
/// proof is always admitted, a computation proof is non-empty, and a
/// storage proof carries at least 64 bytes.
pub open spec fn proof_admissible(t: ProofType, data_len: int) -> bool {
    match t {
        ProofType::WorkProof => data_len >= 32,
        ProofType::StakeProof => true,
        ProofType::ComputationProof => data_len > 0,
        ProofType::StorageProof => data_len >= 64,
    }
}

/// Validates proofs and counts the validations performed.
pub struct ProofValidator {
    validation_count: u64,
    difficulty_threshold: u64,
}

impl ProofValidator {
    /// How many validations have been performed.
    pub closed spec fn count_spec(self) -> u64 {
        self.validation_count
    }

    /// The configured difficulty threshold.
    pub closed spec fn difficulty_spec(self) -> u64 {
        self.difficulty_threshold
    }

    /// Creates a validator that has validated nothing yet.
    pub fn new(difficulty_threshold: u64) -> (r: Self)
        ensures
            r.count_spec() == 0,
            r.difficulty_spec() == difficulty_threshold,
    {
        ProofValidator { validation_count: 0, difficulty_threshold }
    }

    /// Validates a work proof: at least 32 bytes of data.
    fn validate_work_proof(proof: &Proof) -> (r: ValidationResult)
        ensures
            r.is_valid == proof_admissible(ProofType::WorkProof, proof.data@.len() as int),
            r.is_valid <==> r.reason is None,
            !r.is_valid ==> (r.reason matches Some(m) && m@ == "Proof data too short"@),
    {
        let is_valid = proof.data.len() >= 32;
        ValidationResult {
            is_valid,
            reason: if is_valid {
                None
            } else {
                Some("Proof data too short".to_owned())
            },
            timestamp: timestamp_millis(),
        }
    }

    /// Validates a stake proof: always admitted.
    fn validate_stake_proof(proof: &Proof) -> (r: ValidationResult)
        ensures
            r.is_valid,
            r.reason is None,
    {
        let _ = proof;
        ValidationResult { is_valid: true, reason: None, timestamp: timestamp_millis() }
    }

    /// Validates a computation proof: non-empty data.
    fn validate_computation_proof(proof: &Proof) -> (r: ValidationResult)
        ensures
            r.is_valid == proof_admissible(ProofType::ComputationProof, proof.data@.len() as int),
            r.is_valid <==> r.reason is None,
            !r.is_valid ==> (r.reason matches Some(m) && m@ == "Empty computation proof"@),
    {
        let is_valid = proof.data.len() > 0;
        ValidationResult {
            is_valid,
            reason: if is_valid {
                None
            } else {
                Some("Empty computation proof".to_owned())
            },
            timestamp: timestamp_millis(),
        }
    }

    /// Validates a storage proof: at least 64 bytes of data.
    fn validate_storage_proof(proof: &Proof) -> (r: ValidationResult)
        ensures
            r.is_valid == proof_admissible(ProofType::StorageProof, proof.data@.len() as int),
            r.is_valid <==> r.reason is None,
            !r.is_valid ==> (r.reason matches Some(m) && m@ == "Invalid storage proof size"@),
    {
        let is_valid = proof.data.len() >= 64;
        ValidationResult {
            is_valid,
            reason: if is_valid {
                None
            } else {
                Some("Invalid storage proof size".to_owned())
            },
            timestamp: timestamp_millis(),
        }
    }

    /// Validates a proof by its type's admission rule and counts the
    /// validation (the counter saturates).
    pub fn validate_proof(&mut self, proof: &Proof) -> (r: ValidationResult)
        ensures
            final(self).difficulty_spec() == old(self).difficulty_spec(),
            final(self).count_spec() == (if old(self).count_spec() == u64::MAX {
                u64::MAX
            } else {
                (old(self).count_spec() + 1) as u64
            }),
            r.is_valid == proof_admissible(proof.proof_type, proof.data@.len() as int),
            r.is_valid <==> r.reason is None,
            !r.is_valid ==> (r.reason matches Some(m) && (match proof.proof_type {
                ProofType::WorkProof => m@ == "Proof data too short"@,
                ProofType::StakeProof => false,
                ProofType::ComputationProof => m@ == "Empty computation proof"@,
                ProofType::StorageProof => m@ == "Invalid storage proof size"@,
            })),
    {
        if self.validation_count < u64::MAX {
            self.validation_count = self.validation_count + 1;
        }
        match proof.proof_type {
            ProofType::WorkProof => Self::validate_work_proof(proof),
            ProofType::StakeProof => Self::validate_stake_proof(proof),
            ProofType::ComputationProof => Self::validate_computation_proof(proof),
            ProofType::StorageProof => Self::validate_storage_proof(proof),
        }
    }

    /// How many validations have been performed.
    pub fn get_validation_count(&self) -> (r: u64)
        ensures
            r == self.count_spec(),
    {
        self.validation_count
    }
}

} // verus!
