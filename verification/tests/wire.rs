//! Wire types: structure and codec round trips.

use self_chain_core::block::{Block, BlockHeader, CommitSignature, block_hash, decode_block,
    decode_header, encode_block, encode_header};
use self_chain_core::proposal::{BlockProposal, ValidatedProposal, decode_proposal, encode_proposal};
use self_chain_core::transaction::{Transaction, decode_transaction, encode_transaction,
    transaction_hash};
use self_chain_core::vote::{RankedVote, Vote, VoteStep, decode_ranked_vote, decode_vote,
    encode_ranked_vote, encode_vote};

#[test]
fn test_block_header_structure() {
    let header = BlockHeader {
        height: 1,
        previous_hash: vec![0u8; 32],
        timestamp: 1704067200,
        state_root: vec![1u8; 32],
        transactions_root: vec![2u8; 32],
        proposer_id: "validator-123".to_string(),
        round: 1,
        chain_id: "self-chain-mainnet".to_string(),
        efficiency_score: 1000,
        point_price: 100,
        commit_signatures: vec![],
    };

    assert_eq!(header.height, 1);
    assert_eq!(header.chain_id, "self-chain-mainnet");
    assert_eq!(header.efficiency_score, 1000);
    assert_eq!(header.point_price, 100);
}

#[test]
fn test_genesis_block_header() {
    let genesis = BlockHeader::genesis("test-chain");

    assert_eq!(genesis.height, 0);
    assert_eq!(genesis.previous_hash, vec![0u8; 32]);
    assert_eq!(genesis.chain_id, "test-chain");
}

#[test]
fn test_commit_signature_structure() {
    let sig = CommitSignature { validator_id: "validator-456".to_string(), signature: vec![0u8; 64] };

    assert_eq!(sig.validator_id, "validator-456");
    assert_eq!(sig.signature.len(), 64);
}

#[test]
fn test_block_structure() {
    let header = BlockHeader::genesis("test-chain");
    let block = Block::new(header, vec![]);

    assert_eq!(block.height(), 0);
    assert_eq!(block.tx_count(), 0);
}

#[test]
fn test_vote_step_values() {
    assert_eq!(VoteStep::Prevote.step_byte(), 1);
    assert_eq!(VoteStep::Precommit.step_byte(), 2);
}

#[test]
fn test_vote_domain_prefix() {
    let prevote = Vote::prevote(1, 0, vec![0u8; 32], "v1".to_string());
    let precommit = Vote::precommit(1, 0, vec![0u8; 32], "v1".to_string());

    assert_eq!(prevote.domain_prefix(), b"self-chain-vote-prevote-v1".to_vec());
    assert_eq!(precommit.domain_prefix(), b"self-chain-vote-precommit-v1".to_vec());
}

#[test]
fn test_nil_vote() {
    let nil_vote = Vote::nil(1, 0, VoteStep::Prevote, "validator-1".to_string());

    assert!(nil_vote.is_nil());
    assert_eq!(nil_vote.block_hash, vec![0u8; 32]);
}

#[test]
fn test_non_nil_vote() {
    let block_hash = vec![1u8; 32];
    let vote = Vote::prevote(1, 0, block_hash, "validator-1".to_string());

    assert!(!vote.is_nil());
}

#[test]
fn test_ranked_vote() {
    let ranked = RankedVote::new(1, 0, vec![0xAB; 32], 5000, "validator-1".to_string());

    assert_eq!(ranked.height, 1);
    assert_eq!(ranked.efficiency_score, 5000);
    assert_eq!(ranked.block_hash, vec![0xAB; 32]);
}

#[test]
fn test_transaction_structure() {
    let tx = Transaction {
        nonce: 1,
        chain_id: "self-chain-mainnet".to_string(),
        sender: "a1b2c3d4e5f6".to_string(),
        recipient: Some("f6e5d4c3b2a1".to_string()),
        data: vec![],
        point_price: 1000,
        timestamp: 1704067200,
        public_key: vec![0u8; 32],
        signature: vec![0u8; 64],
    };

    assert_eq!(tx.nonce, 1);
    assert_eq!(tx.chain_id, "self-chain-mainnet");
    assert_eq!(tx.point_price, 1000);
    assert!(tx.is_transfer());
}

#[test]
fn test_transaction_new() {
    let tx = Transaction::new(
        5,
        "test-chain".to_string(),
        "sender123".to_string(),
        Some("recipient456".to_string()),
        vec![1, 2, 3],
        500,
        1704067200,
    );

    assert_eq!(tx.nonce, 5);
    assert_eq!(tx.point_price, 500);
    assert_eq!(tx.data, vec![1, 2, 3]);
    // Unsigned transaction has zero signature
    assert_eq!(tx.signature, vec![0u8; 64]);
}

#[test]
fn test_deployment_transaction() {
    let tx = Transaction::new(
        0,
        "test-chain".to_string(),
        "deployer".to_string(),
        None, // No recipient = deployment
        vec![0xDE, 0xAD, 0xBE, 0xEF],
        100,
        1704067200,
    );

    assert!(!tx.is_transfer());
    assert!(tx.recipient.is_none());
}

#[test]
fn test_estimated_size() {
    let tx = Transaction::new(
        0,
        "chain".to_string(),  // 5 bytes
        "sender".to_string(),  // 6 bytes
        Some("recipient".to_string()),  // 9 bytes
        vec![1, 2, 3, 4, 5],  // 5 bytes
        100,
        1704067200,
    );

    // 120 (fixed) + 5 + 6 + 9 + 5 = 145
    assert_eq!(tx.estimated_size(), 145);
}

#[test]
fn test_transaction_roundtrip() {
    let tx = Transaction::new(
        7,
        "self-chain-mainnet".to_string(),
        "0xabc123".to_string(),
        Some("0xdef456".to_string()),
        vec![9, 8, 7],
        1234,
        1704067200,
    );
    let bytes = encode_transaction(&tx);
    let back = decode_transaction(&bytes).expect("canonical encoding must decode");
    assert_eq!(back.nonce, tx.nonce);
    assert_eq!(back.chain_id, tx.chain_id);
    assert_eq!(back.sender, tx.sender);
    assert_eq!(back.recipient, tx.recipient);
    assert_eq!(back.data, tx.data);
    assert_eq!(back.point_price, tx.point_price);
    assert_eq!(back.timestamp, tx.timestamp);
    assert_eq!(back.public_key, tx.public_key);
    assert_eq!(back.signature, tx.signature);
}

#[test]
fn test_transaction_roundtrip_no_recipient() {
    let tx = Transaction::new(
        1,
        "c".to_string(),
        "s".to_string(),
        None,
        vec![],
        0,
        0,
    );
    let bytes = encode_transaction(&tx);
    let back = decode_transaction(&bytes).expect("canonical encoding must decode");
    assert_eq!(back.recipient, None);
    assert_eq!(back.nonce, 1);
}

#[test]
fn test_decode_rejects_garbage() {
    assert!(decode_transaction(&vec![1, 2, 3]).is_none());
    assert!(decode_vote(&vec![]).is_none());
    assert!(decode_ranked_vote(&vec![0u8; 10]).is_none());
}

#[test]
fn test_decode_rejects_trailing_bytes() {
    let tx = Transaction::new(1, "c".to_string(), "s".to_string(), None, vec![], 0, 0);
    let mut bytes = encode_transaction(&tx);
    bytes.push(0);
    assert!(decode_transaction(&bytes).is_none());
}

#[test]
fn test_vote_roundtrip() {
    let vote = Vote::precommit(3, 2, vec![5u8; 32], "validator-9".to_string());
    let bytes = encode_vote(&vote);
    let back = decode_vote(&bytes).expect("canonical encoding must decode");
    assert_eq!(back.height, 3);
    assert_eq!(back.round, 2);
    assert_eq!(back.step, VoteStep::Precommit);
    assert_eq!(back.block_hash, vote.block_hash);
    assert_eq!(back.validator_id, vote.validator_id);
    assert_eq!(back.signature, vote.signature);
}

#[test]
fn test_ranked_vote_roundtrip() {
    let vote = RankedVote::new(9, 4, vec![7u8; 32], 42_000_000, "validator-2".to_string());
    let bytes = encode_ranked_vote(&vote);
    let back = decode_ranked_vote(&bytes).expect("canonical encoding must decode");
    assert_eq!(back.height, 9);
    assert_eq!(back.round, 4);
    assert_eq!(back.block_hash, vote.block_hash);
    assert_eq!(back.efficiency_score, 42_000_000);
    assert_eq!(back.validator_id, vote.validator_id);
}

#[test]
fn test_encoding_deterministic() {
    let tx = Transaction::new(2, "chain".to_string(), "s".to_string(), None, vec![1], 5, 6);
    let a = encode_transaction(&tx);
    let b = encode_transaction(&tx);
    assert_eq!(a, b);
}

#[test]
fn test_transaction_hash_not_identity() {
    let tx = Transaction::new(2, "chain".to_string(), "s".to_string(), None, vec![1], 5, 6);
    let h = transaction_hash(&tx);
    assert_eq!(h.len(), 32);
    // A digest is not the encoding itself.
    assert_ne!(h, encode_transaction(&tx));
    // And it changes when the transaction changes.
    let tx2 = Transaction::new(3, "chain".to_string(), "s".to_string(), None, vec![1], 5, 6);
    assert_ne!(h, transaction_hash(&tx2));
}

#[test]
fn test_block_hash_ignores_commit_signatures() {
    let mut header = BlockHeader::genesis("test-chain");
    let before = block_hash(&header);
    header.commit_signatures.push(CommitSignature {
        validator_id: "v1".to_string(),
        signature: vec![0u8; 64],
    });
    let after = block_hash(&header);
    assert_eq!(before, after);

    // But the full encoding does change.
    let mut plain = BlockHeader::genesis("test-chain");
    assert_ne!(encode_header(&plain), encode_header(&header));
    plain.height = 1;
    assert_ne!(block_hash(&plain), before);
}

#[test]
fn test_block_proposal_creation() {
    let mut header = BlockHeader::genesis("test-chain");
    header.height = 1;
    header.efficiency_score = 5000;
    let block = Block::new(header, vec![]);
    let proposal = BlockProposal::new(1, 0, "validator-123".to_string(), block);

    assert_eq!(proposal.height, 1);
    assert_eq!(proposal.round, 0);
    assert_eq!(proposal.efficiency_score(), 5000);
    assert_eq!(proposal.tx_count(), 0);
}

#[test]
fn test_validated_proposal_beats_reference() {
    let mut header = BlockHeader::genesis("t");
    header.efficiency_score = 6000;
    let proposal = BlockProposal::new(1, 0, "v1".to_string(), Block::new(header, vec![]));

    // Reference efficiency is 5000, proposal is 6000
    let validated = ValidatedProposal::new(proposal, 6000, 5000);

    assert!(validated.beats_reference);
    assert_eq!(validated.efficiency_delta, 1000);
}

#[test]
fn test_validated_proposal_below_reference() {
    let mut header = BlockHeader::genesis("t");
    header.efficiency_score = 4000;
    let proposal = BlockProposal::new(1, 0, "v1".to_string(), Block::new(header, vec![]));

    // Reference efficiency is 5000, proposal is 4000
    let validated = ValidatedProposal::new(proposal, 4000, 5000);

    assert!(!validated.beats_reference);
    assert_eq!(validated.efficiency_delta, -1000);
}

#[test]
fn test_efficiency_matches_claim() {
    let mut header = BlockHeader::genesis("t");
    header.efficiency_score = 5000;
    let proposal = BlockProposal::new(1, 0, "v1".to_string(), Block::new(header, vec![]));

    // Verified efficiency matches claim
    let validated = ValidatedProposal::new(proposal.clone(), 5000, 4000);
    assert!(validated.efficiency_matches_claim());

    // Verified efficiency doesn't match claim
    let validated_mismatch = ValidatedProposal::new(proposal, 4999, 4000);
    assert!(!validated_mismatch.efficiency_matches_claim());
}

#[test]
fn test_header_roundtrip() {
    let mut header = BlockHeader::genesis("test-chain");
    header.height = 5;
    header.round = 2;
    header.efficiency_score = 123;
    header.commit_signatures.push(CommitSignature {
        validator_id: "v1".to_string(),
        signature: vec![9u8; 64],
    });
    let bytes = encode_header(&header);
    let back = decode_header(&bytes).expect("canonical encoding must decode");
    assert_eq!(back.height, 5);
    assert_eq!(back.round, 2);
    assert_eq!(back.efficiency_score, 123);
    assert_eq!(back.chain_id, "test-chain");
    assert_eq!(back.commit_signatures.len(), 1);
    assert_eq!(back.commit_signatures[0].validator_id, "v1");
    assert_eq!(back.commit_signatures[0].signature, vec![9u8; 64]);
}

#[test]
fn test_block_roundtrip() {
    let tx = Transaction::new(1, "c".to_string(), "s".to_string(), None, vec![7], 10, 20);
    let header = BlockHeader::genesis("c");
    let block = Block::new(header, vec![tx]);
    let bytes = encode_block(&block);
    let back = decode_block(&bytes).expect("canonical encoding must decode");
    assert_eq!(back.tx_count(), 1);
    assert_eq!(back.transactions[0].nonce, 1);
    assert_eq!(back.transactions[0].data, vec![7]);
    assert_eq!(encode_block(&back), bytes);
}

#[test]
fn test_proposal_roundtrip() {
    let header = BlockHeader::genesis("c");
    let block = Block::new(header, vec![]);
    let proposal = BlockProposal::new(3, 1, "builder".to_string(), block);
    let bytes = encode_proposal(&proposal);
    let back = decode_proposal(&bytes).expect("canonical encoding must decode");
    assert_eq!(back.height, 3);
    assert_eq!(back.round, 1);
    assert_eq!(back.proposer_id, "builder");
    assert_eq!(encode_proposal(&back), bytes);
}
