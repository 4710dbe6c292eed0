//! The round state machine: timeouts, quorum commits, equivocation,
//! and nonce-based replay protection.
use self_chain_core::consensus::{ConsensusConfig, ConsensusError, RoundStep, ValidatorInfo};
use self_chain_core::engine::{AdvanceReason, ConsensusEngine, ConsensusEvent, verify_quorum};
use self_chain_core::vote::RankedVote;
use self_chain_core::accounts::AccountState;
use self_chain_core::block::{Block, BlockHeader};
use self_chain_core::consensus::CommitSignatureMsg;
use self_chain_core::keys::MasterKey;
use self_chain_core::proposal::{BlockProposal, validate_proposal};
use self_chain_core::transaction::Transaction;

fn committee(n: usize) -> Vec<ValidatorInfo> {
    (0..n)
        .map(|i| ValidatorInfo::new(format!("validator-{}", i), vec![i as u8; 32], "test".to_string()))
        .collect()
}

fn vote(i: usize, hash: [u8; 32]) -> RankedVote {
    RankedVote::new(1, 0, hash.to_vec(), 5000, format!("validator-{}", i))
}

#[test]
fn test_round_advance_on_timeout() {
    let mut engine = ConsensusEngine::new(ConsensusConfig::default(), committee(10), 1, 0);
    let mut events = Vec::new();

    engine.tick(50, &mut events);
    assert_eq!(engine.state.step, RoundStep::Voting);
    engine.tick(58, &mut events);
    assert_eq!(engine.state.step, RoundStep::Finalize);
    engine.tick(60, &mut events);

    assert_eq!(engine.state.height, 1);
    assert_eq!(engine.state.round, 1);
    assert_eq!(engine.state.step, RoundStep::ProposeWindow);
    assert_eq!(events.len(), 1);
    match &events[0] {
        ConsensusEvent::RoundAdvanced { height, round, reason } => {
            assert_eq!(*height, 1);
            assert_eq!(*round, 1);
            assert_eq!(*reason, AdvanceReason::Timeout { step: RoundStep::Finalize });
        },
        _ => panic!("expected a RoundAdvanced event"),
    }
}

#[test]
fn test_quorum_commit() {
    // Committee of 10: quorum is 7.
    let mut engine = ConsensusEngine::new(ConsensusConfig::default(), committee(10), 1, 0);
    let mut events = Vec::new();
    let hash = [0xAB_u8; 32];

    engine
        .submit_proposal(hash.to_vec(), "validator-0".to_string(), 5000, 1, 0, &mut events)
        .unwrap();
    assert_eq!(engine.state.reference_efficiency, 5000);

    for i in 0..6 {
        engine.submit_ranked_vote(vote(i, hash), &mut events).unwrap();
        assert_ne!(engine.state.step, RoundStep::Committed);
    }
    engine.submit_ranked_vote(vote(6, hash), &mut events).unwrap();

    assert_eq!(engine.state.step, RoundStep::Committed);
    match events.last().unwrap() {
        ConsensusEvent::BlockCommitted { height, block_hash, commit_signatures } => {
            assert_eq!(*height, 1);
            assert_eq!(block_hash, &hash.to_vec());
            assert_eq!(commit_signatures.len(), 7);
            let expected: Vec<String> = (0..7).map(|i| format!("validator-{}", i)).collect();
            let got: Vec<String> =
                commit_signatures.iter().map(|s| s.validator_id.clone()).collect();
            assert_eq!(got, expected);
            // The attached signatures prove the quorum.
            let count = verify_quorum(commit_signatures, &committee(10));
            assert!(count >= 7);
        },
        _ => panic!("expected a BlockCommitted event"),
    }
}

#[test]
fn test_equivocation() {
    let mut engine = ConsensusEngine::new(ConsensusConfig::default(), committee(10), 1, 0);
    let mut events = Vec::new();
    let h1 = [0x11_u8; 32];
    let h2 = [0x22_u8; 32];

    engine.submit_proposal(h1.to_vec(), "validator-0".to_string(), 100, 1, 0, &mut events).unwrap();
    engine.submit_proposal(h2.to_vec(), "validator-1".to_string(), 90, 1, 0, &mut events).unwrap();

    engine.submit_ranked_vote(vote(3, h1), &mut events).unwrap();
    let second = engine.submit_ranked_vote(vote(3, h2), &mut events);

    match second {
        Err(ConsensusError::Equivocation { validator_id }) => {
            assert_eq!(validator_id, "validator-3");
        },
        _ => panic!("expected an equivocation error"),
    }
    match events.last().unwrap() {
        ConsensusEvent::EquivocationDetected { validator_id, evidence } => {
            assert_eq!(validator_id, "validator-3");
            assert_eq!(evidence.0.block_hash, h1.to_vec());
            assert_eq!(evidence.1.block_hash, h2.to_vec());
        },
        _ => panic!("expected an EquivocationDetected event"),
    }
    assert_eq!(engine.evidence.len(), 1);
}

#[test]
fn test_exact_two_thirds_is_no_quorum() {
    // Committee of 3: floor(2n/3) + 1 = 3, so two votes (exactly 2/3)
    // do not commit.
    let mut engine = ConsensusEngine::new(ConsensusConfig::default(), committee(3), 1, 0);
    let mut events = Vec::new();
    let hash = [0x33_u8; 32];
    engine.submit_proposal(hash.to_vec(), "validator-0".to_string(), 10, 1, 0, &mut events).unwrap();
    engine.submit_ranked_vote(vote(0, hash), &mut events).unwrap();
    engine.submit_ranked_vote(vote(1, hash), &mut events).unwrap();
    assert_ne!(engine.state.step, RoundStep::Committed);
    engine.submit_ranked_vote(vote(2, hash), &mut events).unwrap();
    assert_eq!(engine.state.step, RoundStep::Committed);
}

#[test]
fn test_single_validator_quorum_is_one() {
    let mut engine = ConsensusEngine::new(ConsensusConfig::default(), committee(1), 1, 0);
    let mut events = Vec::new();
    let hash = [0x44_u8; 32];
    engine.submit_proposal(hash.to_vec(), "validator-0".to_string(), 10, 1, 0, &mut events).unwrap();
    engine.submit_ranked_vote(vote(0, hash), &mut events).unwrap();
    assert_eq!(engine.state.step, RoundStep::Committed);
}

#[test]
fn test_vote_error_variants() {
    let mut engine = ConsensusEngine::new(ConsensusConfig::default(), committee(10), 1, 0);
    let mut events = Vec::new();
    let hash = [0x55_u8; 32];
    engine.submit_proposal(hash.to_vec(), "validator-0".to_string(), 10, 1, 0, &mut events).unwrap();

    let mut wrong_height = vote(0, hash);
    wrong_height.height = 2;
    assert!(matches!(
        engine.submit_ranked_vote(wrong_height, &mut events),
        Err(ConsensusError::WrongHeight { expected: 1, got: 2 })
    ));

    let mut wrong_round = vote(0, hash);
    wrong_round.round = 5;
    assert!(matches!(
        engine.submit_ranked_vote(wrong_round, &mut events),
        Err(ConsensusError::WrongRound { expected: 0, got: 5 })
    ));

    let mut outsider = vote(0, hash);
    outsider.validator_id = "stranger".to_string();
    assert!(matches!(
        engine.submit_ranked_vote(outsider, &mut events),
        Err(ConsensusError::NotInCommittee(_))
    ));

    let unknown = vote(0, [0x77_u8; 32]);
    assert!(matches!(
        engine.submit_ranked_vote(unknown, &mut events),
        Err(ConsensusError::InvalidVote(_))
    ));

    engine.submit_ranked_vote(vote(0, hash), &mut events).unwrap();
    assert!(matches!(
        engine.submit_ranked_vote(vote(0, hash), &mut events),
        Err(ConsensusError::DuplicateVote(_))
    ));
}

#[test]
fn test_proposal_error_variants() {
    let mut engine = ConsensusEngine::new(ConsensusConfig::default(), committee(10), 1, 0);
    let mut events = Vec::new();
    let hash = [0x66_u8; 32];

    assert!(matches!(
        engine.submit_proposal(hash.to_vec(), "b".to_string(), 10, 9, 0, &mut events),
        Err(ConsensusError::WrongHeight { expected: 1, got: 9 })
    ));
    assert!(matches!(
        engine.submit_proposal(hash.to_vec(), "b".to_string(), 10, 1, 3, &mut events),
        Err(ConsensusError::WrongRound { expected: 0, got: 3 })
    ));

    // Close the proposal window: proposals are then refused.
    engine.tick(50, &mut events);
    assert!(matches!(
        engine.submit_proposal(hash.to_vec(), "b".to_string(), 10, 1, 0, &mut events),
        Err(ConsensusError::InvalidProposal(_))
    ));
}

#[test]
fn test_best_proposal_per_proposer_kept() {
    let mut engine = ConsensusEngine::new(ConsensusConfig::default(), committee(10), 1, 0);
    let mut events = Vec::new();
    engine.submit_proposal([1u8; 32].to_vec(), "b".to_string(), 10, 1, 0, &mut events).unwrap();
    engine.submit_proposal([2u8; 32].to_vec(), "b".to_string(), 50, 1, 0, &mut events).unwrap();
    engine.submit_proposal([3u8; 32].to_vec(), "b".to_string(), 20, 1, 0, &mut events).unwrap();
    // One proposal per proposer, holding the best efficiency seen.
    assert_eq!(engine.proposals.len(), 1);
    assert_eq!(engine.proposals[0].efficiency_score, 50);
    assert_eq!(engine.proposals[0].block_hash, [2u8; 32].to_vec());
    assert_eq!(engine.state.reference_efficiency, 50);
    assert_eq!(engine.state.proposals_received, 3);
}

#[test]
fn test_begin_next_height() {
    let mut engine = ConsensusEngine::new(ConsensusConfig::default(), committee(1), 1, 0);
    let mut events = Vec::new();
    let hash = [0x44_u8; 32];
    engine.submit_proposal(hash.to_vec(), "validator-0".to_string(), 10, 1, 0, &mut events).unwrap();
    engine.submit_ranked_vote(vote(0, hash), &mut events).unwrap();
    assert_eq!(engine.state.step, RoundStep::Committed);

    engine.begin_next_height(61, &mut events);
    assert_eq!(engine.state.height, 2);
    assert_eq!(engine.state.round, 0);
    assert_eq!(engine.state.step, RoundStep::ProposeWindow);
    assert!(engine.proposals.is_empty());
    assert!(engine.tally.is_empty());
}

#[test]
fn test_verify_quorum_counts_distinct_members() {
    let c = committee(4);
    let sig = |name: &str| CommitSignatureMsg {
        validator_id: name.to_string(),
        signature: vec![0u8; 64],
    };
    // A duplicate and an outsider do not count.
    let sigs = vec![sig("validator-0"), sig("validator-0"), sig("stranger"), sig("validator-2")];
    assert_eq!(verify_quorum(&sigs, &c), 2);
}

#[test]
fn test_reapply_committed_block_is_forbidden() {
    let mut state = AccountState::new();
    let tx = Transaction::new(
        1,
        "chain".to_string(),
        "0xalice".to_string(),
        None,
        vec![],
        5,
        7,
    );
    let block = Block::new(BlockHeader::genesis("chain"), vec![tx]);

    state.apply_block(&block).unwrap();
    assert_eq!(state.get_nonce(&"0xalice".to_string()), 1);

    // The nonce advanced, so the same block no longer applies.
    assert!(state.apply_block(&block).is_err());
    assert_eq!(state.get_nonce(&"0xalice".to_string()), 1);
}

#[test]
fn test_apply_block_is_atomic() {
    let mut state = AccountState::new();
    let good = Transaction::new(1, "c".to_string(), "0xa".to_string(), None, vec![], 1, 1);
    let bad = Transaction::new(7, "c".to_string(), "0xb".to_string(), None, vec![], 1, 1);
    let block = Block::new(BlockHeader::genesis("c"), vec![good, bad]);

    assert!(matches!(state.apply_block(&block), Err(ConsensusError::BlockValidation(_))));
    // Nothing was applied: the first sender's nonce is still zero.
    assert_eq!(state.get_nonce(&"0xa".to_string()), 0);
}

#[test]
fn test_sequential_nonces_in_one_block() {
    let mut state = AccountState::new();
    let t1 = Transaction::new(1, "c".to_string(), "0xa".to_string(), None, vec![], 1, 1);
    let t2 = Transaction::new(2, "c".to_string(), "0xa".to_string(), None, vec![], 1, 2);
    let block = Block::new(BlockHeader::genesis("c"), vec![t1, t2]);
    state.apply_block(&block).unwrap();
    assert_eq!(state.get_nonce(&"0xa".to_string()), 2);
}

#[test]
fn test_validate_proposal_checks() {
    let master = MasterKey::generate().unwrap();
    let mut header = BlockHeader::genesis("self-chain-mainnet");
    header.height = 1;
    header.efficiency_score = 5000;
    let mut proposal = BlockProposal::new(1, 0, "builder-1".to_string(), Block::new(header, vec![]));
    proposal.sign(&master.private_key);

    let chain = "self-chain-mainnet".to_string();
    let ok = validate_proposal(proposal.clone(), master.public_key(), &chain, 1, 0, 5000, 4000)
        .unwrap();
    assert!(ok.beats_reference);
    assert_eq!(ok.efficiency_delta, 1000);
    assert!(ok.efficiency_matches_claim());

    // Claimed efficiency differs from the re-derived one.
    let r = validate_proposal(proposal.clone(), master.public_key(), &chain, 1, 0, 4999, 4000);
    assert!(matches!(r, Err(ConsensusError::EfficiencyMismatch { claimed: 5000, actual: 4999 })));

    // Wrong height and round.
    let r = validate_proposal(proposal.clone(), master.public_key(), &chain, 2, 0, 5000, 0);
    assert!(matches!(r, Err(ConsensusError::WrongHeight { .. })));
    let r = validate_proposal(proposal.clone(), master.public_key(), &chain, 1, 1, 5000, 0);
    assert!(matches!(r, Err(ConsensusError::WrongRound { .. })));

    // A tampered signature is rejected.
    let mut forged = proposal.clone();
    forged.signature[0] ^= 1;
    let r = validate_proposal(forged, master.public_key(), &chain, 1, 0, 5000, 0);
    assert!(matches!(r, Err(ConsensusError::InvalidSignature(_))));

    // Wrong chain id.
    let r = validate_proposal(proposal, master.public_key(), &"other".to_string(), 1, 0, 5000, 0);
    assert!(matches!(r, Err(ConsensusError::InvalidProposal(_))));
}

#[test]
fn test_error_messages() {
    let e = ConsensusError::QuorumNotReached;
    assert_eq!(e.message(), "quorum not reached");
    let e = ConsensusError::Timeout { step: RoundStep::Finalize };
    assert!(e.message().contains("Finalize"));
}
