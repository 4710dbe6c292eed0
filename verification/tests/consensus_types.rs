//! Consensus configuration and round state.

use self_chain_core::consensus::{
    ConsensusConfig, RoundState, RoundStep, ValidatorInfo,
};

#[test]
fn test_consensus_config_default() {
    let config = ConsensusConfig::default();
    assert_eq!(config.chain_id, "self-chain-mainnet");
    assert_eq!(config.timeout_propose_window_secs, 50);
    assert_eq!(config.timeout_voting_secs, 8);
    assert_eq!(config.timeout_finalize_secs, 2);
}

#[test]
fn test_round_duration() {
    let config = ConsensusConfig::default();
    assert_eq!(config.round_duration(), 60);
}

#[test]
fn test_quorum_threshold() {
    let config = ConsensusConfig::default();

    // 10 validators: 2/3 = 6.67, +1 = 7
    assert_eq!(config.quorum_threshold(10), 7);

    // 100 validators: 2/3 = 66.67, +1 = 67
    assert_eq!(config.quorum_threshold(100), 67);
}

#[test]
fn test_quorum_threshold_single_validator() {
    let config = ConsensusConfig::default();
    assert_eq!(config.quorum_threshold(1), 1);
}

#[test]
fn test_round_state_advance() {
    let mut state = RoundState::new(1);
    assert_eq!(state.height, 1);
    assert_eq!(state.round, 0);
    assert_eq!(state.step, RoundStep::ProposeWindow);

    state.advance_round();
    assert_eq!(state.round, 1);
    assert_eq!(state.step, RoundStep::ProposeWindow);
}

#[test]
fn test_round_state_new_height() {
    let mut state = RoundState::new(1);
    state.round = 2;
    state.winner_hash = Some(vec![1u8; 32]);

    state.new_height(2);
    assert_eq!(state.height, 2);
    assert_eq!(state.round, 0);
    assert!(state.winner_hash.is_none());
}

#[test]
fn test_validator_info() {
    let validator = ValidatorInfo::new(
        "validator-1".to_string(),
        vec![0xAB; 32],
        "test-constellation".to_string(),
    );

    assert_eq!(validator.validator_id, "validator-1");
    assert!(validator.is_eligible);
}

#[test]
fn test_round_step_names() {
    assert_eq!(RoundStep::ProposeWindow.name(), "ProposeWindow");
    assert_eq!(RoundStep::Committed.name(), "Committed");
}
