use protocol_layer::shared::types::{ProposalState, ProposalType};
use protocol_layer::validator::consensus_engine::{ConsensusEngine, ConsensusState, Vote};
use protocol_layer::validator::proof_validator::{Proof, ProofType, ProofValidator};
use protocol_layer::validator::reputation_system::{ReputationEvent, ReputationSystem};
use protocol_layer::ProtocolError;

fn ballot_vote(validator: &str, hash: &str, approve: bool) -> Vote {
    Vote {
        validator_id: validator.to_string(),
        block_hash: hash.to_string(),
        timestamp: 0,
        approve,
        signature: vec![],
    }
}

fn proof_of(kind: ProofType, len: usize) -> Proof {
    Proof {
        id: "p".to_string(),
        proof_type: kind,
        data: vec![0u8; len],
        timestamp: 0,
        submitter: "s".to_string(),
    }
}

#[test]
fn test_consensus_engine_creation() {
    let engine = ConsensusEngine::new(670, 10);
    assert_eq!(engine.get_state(), ConsensusState::Idle);
}

#[test]
fn quorum_arithmetic() {
    // ten validators at a 0.67 threshold need seven approvals
    let mut engine = ConsensusEngine::new(670, 10);
    assert_eq!(engine.required_votes(), 7);
    for i in 0..6 {
        let v = ballot_vote(&format!("v{}", i), "block", true);
        engine.submit_vote(v).unwrap();
    }
    assert!(!engine.check_consensus("block"));
    engine.submit_vote(ballot_vote("v6", "block", true)).unwrap();
    assert!(engine.check_consensus("block"));
}

#[test]
fn duplicate_ballot_vote_rejected_and_count_unchanged() {
    let mut engine = ConsensusEngine::new(1000, 2);
    assert_eq!(engine.required_votes(), 2);
    engine.submit_vote(ballot_vote("a", "block", true)).unwrap();
    let dup = engine.submit_vote(ballot_vote("a", "block", true));
    assert_eq!(dup, Err(ProtocolError::DuplicateVote));
    // had the duplicate counted, two approvals would reach consensus
    assert!(!engine.check_consensus("block"));
    engine.submit_vote(ballot_vote("b", "block", true)).unwrap();
    assert!(engine.check_consensus("block"));
}

#[test]
fn duplicate_proposal_vote_rejected() {
    let mut engine = ConsensusEngine::new(1000, 2);
    let pid = engine
        .propose(ProposalType::TaskAssignment, 1, 5, 0, 0)
        .unwrap();
    assert_eq!(
        engine.cast_vote("a", pid, true),
        Ok(ProposalState::Voting)
    );
    assert_eq!(engine.cast_vote("a", pid, true), Err(ProtocolError::DuplicateVote));
    // the vote count is unchanged: one more approval still commits
    assert_eq!(
        engine.cast_vote("b", pid, true),
        Ok(ProposalState::Committed)
    );
}

#[test]
fn rejections_make_quorum_unreachable() {
    // three validators, all three must approve; one rejection is fatal
    let mut engine = ConsensusEngine::new(1000, 3);
    let pid = engine
        .propose(ProposalType::TaskAssignment, 1, 5, 0, 0)
        .unwrap();
    assert_eq!(
        engine.cast_vote("a", pid, false),
        Ok(ProposalState::Rejected)
    );
    // a late vote on the decided proposal is ignored, not an error
    assert_eq!(
        engine.cast_vote("b", pid, true),
        Ok(ProposalState::Rejected)
    );
}

#[test]
fn one_live_proposal_per_task() {
    let mut engine = ConsensusEngine::new(1000, 3);
    let _pid = engine
        .propose(ProposalType::TaskAssignment, 1, 5, 0, 0)
        .unwrap();
    let second = engine.propose(ProposalType::TaskAssignment, 1, 6, 0, 0);
    assert_eq!(second, Err(ProtocolError::AlreadyRegistered));
    // a different task may open its own proposal
    assert!(engine.propose(ProposalType::TaskAssignment, 2, 6, 0, 0).is_ok());
}

#[test]
fn proposal_times_out_only_past_deadline() {
    let mut engine = ConsensusEngine::new(1000, 3);
    let pid = engine
        .propose(ProposalType::TaskAssignment, 1, 5, 0, 100)
        .unwrap();
    // the window is 10 seconds from `now == 100`
    assert_eq!(engine.timeout_proposal(pid, 5_000), Ok(ProposalState::Voting));
    assert_eq!(engine.timeout_proposal(pid, 20_000), Ok(ProposalState::TimedOut));
    assert_eq!(engine.timeout_proposal(pid, 30_000), Ok(ProposalState::TimedOut));
}

#[test]
fn engine_state_round_trip() {
    let mut engine = ConsensusEngine::new(670, 10);
    engine.set_state(ConsensusState::Voting);
    assert_eq!(engine.get_state(), ConsensusState::Voting);
    engine.submit_vote(ballot_vote("a", "block", true)).unwrap();
    engine.reset();
    assert_eq!(engine.get_state(), ConsensusState::Idle);
    assert!(!engine.check_consensus("block"));
}

#[test]
fn test_proof_validator_creation() {
    let validator = ProofValidator::new(1000);
    assert_eq!(validator.get_validation_count(), 0);
}

#[test]
fn proof_rules_per_type() {
    let mut validator = ProofValidator::new(1000);
    let ok_work = validator.validate_proof(&proof_of(ProofType::WorkProof, 32));
    assert!(ok_work.is_valid);
    assert!(ok_work.reason.is_none());
    let short_work = validator.validate_proof(&proof_of(ProofType::WorkProof, 31));
    assert!(!short_work.is_valid);
    assert_eq!(short_work.reason.as_deref(), Some("Proof data too short"));
    let stake = validator.validate_proof(&proof_of(ProofType::StakeProof, 0));
    assert!(stake.is_valid);
    let empty_comp = validator.validate_proof(&proof_of(ProofType::ComputationProof, 0));
    assert!(!empty_comp.is_valid);
    assert_eq!(empty_comp.reason.as_deref(), Some("Empty computation proof"));
    let small_storage = validator.validate_proof(&proof_of(ProofType::StorageProof, 63));
    assert!(!small_storage.is_valid);
    assert_eq!(small_storage.reason.as_deref(), Some("Invalid storage proof size"));
    let storage = validator.validate_proof(&proof_of(ProofType::StorageProof, 64));
    assert!(storage.is_valid);
    assert_eq!(validator.get_validation_count(), 6);
}

#[test]
fn test_reputation_system_creation() {
    let system = ReputationSystem::new(50, 0, 100);
    assert!(system.get_reputation("test").is_none());
}

#[test]
fn reputation_moves_by_event_within_bounds() {
    let mut system = ReputationSystem::new(50, 0, 100);
    system.register_validator("v".to_string()).unwrap();
    assert_eq!(system.get_reputation("v").unwrap().score, 50);
    system.update_reputation("v", ReputationEvent::SuccessfulValidation).unwrap();
    let after_success = system.get_reputation("v").unwrap();
    assert_eq!(after_success.score, 51);
    assert_eq!(after_success.successful_validations, 1);
    system.update_reputation("v", ReputationEvent::FailedValidation).unwrap();
    let after_failure = system.get_reputation("v").unwrap();
    assert_eq!(after_failure.score, 49);
    assert_eq!(after_failure.failed_validations, 1);
    system.update_reputation("v", ReputationEvent::MissedValidation).unwrap();
    assert_eq!(system.get_reputation("v").unwrap().score, 48);
    for _ in 0..10 {
        system.update_reputation("v", ReputationEvent::MaliciousBehavior).unwrap();
    }
    // the floor holds
    assert_eq!(system.get_reputation("v").unwrap().score, 0);
    assert_eq!(
        system.update_reputation("ghost", ReputationEvent::MissedValidation),
        Err(ProtocolError::NotFound)
    );
}

#[test]
fn reputation_threshold_listing_and_eligibility() {
    let mut system = ReputationSystem::new(50, 0, 100);
    system.register_validator("strong".to_string()).unwrap();
    system.register_validator("weak".to_string()).unwrap();
    system.update_reputation("weak", ReputationEvent::MaliciousBehavior).unwrap();
    let above = system.get_validators_above_threshold(45);
    assert_eq!(above, vec!["strong".to_string()]);
    assert!(system.is_validator_eligible("strong", 45));
    assert!(!system.is_validator_eligible("weak", 45));
    assert!(!system.is_validator_eligible("ghost", 0));
    assert_eq!(
        system.register_validator("strong".to_string()),
        Err(ProtocolError::AlreadyRegistered)
    );
}
