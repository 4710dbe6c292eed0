//! Consensus configuration, round state and error taxonomy.
//!
//! Times are carried as whole seconds; the default round lasts 60 seconds,
//! split into a 50 s proposal window, 8 s of voting and 2 s of
//! finalization.

use vstd::prelude::*;

verus! {

/// Target time between blocks, in seconds.
pub const BLOCK_TIME_TARGET_SECS: u64 = 60;

/// Length of the proposal window, in seconds.
pub const TIMEOUT_PROPOSE_WINDOW_SECS: u64 = 50;

/// Length of the voting phase, in seconds.
pub const TIMEOUT_VOTING_SECS: u64 = 8;

/// Length of the finalization phase, in seconds.
pub const TIMEOUT_FINALIZE_SECS: u64 = 2;

/// Tolerated wall-clock drift, in seconds.
pub const CLOCK_DRIFT_TOLERANCE_SECS: u64 = 5;

/// Smallest committee the protocol is configured for.
pub const COMMITTEE_SIZE_MIN: usize = 10;

/// Largest committee the protocol is configured for.
pub const COMMITTEE_SIZE_MAX: usize = 100;

/// Maximum number of transactions in a block.
pub const MAX_TX_PER_BLOCK: usize = 1000;

/// Maximum block size in bytes.
pub const MAX_BLOCK_SIZE: usize = 1_000_000;

/// Chain identifier of the main constellation.
pub fn chain_id_mainnet() -> (r: &'static str)
    ensures
        r@ == "self-chain-mainnet"@,
{
    "self-chain-mainnet"
}

/// Configuration for the consensus engine.
pub struct ConsensusConfig {
    /// Chain identifier, for replay protection.
    pub chain_id: String,
    /// Target block time in seconds.
    pub block_time_secs: u64,
    /// Proposal window timeout in seconds.
    pub timeout_propose_window_secs: u64,
    /// Voting timeout in seconds.
    pub timeout_voting_secs: u64,
    /// Finalization timeout in seconds.
    pub timeout_finalize_secs: u64,
    /// Minimum committee size.
    pub committee_size_min: usize,
    /// Maximum committee size.
    pub committee_size_max: usize,
    /// Maximum transactions per block.
    pub max_tx_per_block: usize,
    /// Maximum block size in bytes.
    pub max_block_size: usize,
}

impl Clone for ConsensusConfig {
    fn clone(&self) -> (r: Self)
        ensures
            r.chain_id@ == self.chain_id@,
            r.block_time_secs == self.block_time_secs,
            r.timeout_propose_window_secs == self.timeout_propose_window_secs,
            r.timeout_voting_secs == self.timeout_voting_secs,
            r.timeout_finalize_secs == self.timeout_finalize_secs,
            r.committee_size_min == self.committee_size_min,
            r.committee_size_max == self.committee_size_max,
            r.max_tx_per_block == self.max_tx_per_block,
            r.max_block_size == self.max_block_size,
    {
        ConsensusConfig {
            chain_id: self.chain_id.clone(),
            block_time_secs: self.block_time_secs,
            timeout_propose_window_secs: self.timeout_propose_window_secs,
            timeout_voting_secs: self.timeout_voting_secs,
            timeout_finalize_secs: self.timeout_finalize_secs,
            committee_size_min: self.committee_size_min,
            committee_size_max: self.committee_size_max,
            max_tx_per_block: self.max_tx_per_block,
            max_block_size: self.max_block_size,
        }
    }
}

impl Default for ConsensusConfig {
    /// The protocol defaults: 60 s rounds split 50/8/2, committees of
    /// 10 to 100, at most 1000 transactions and 1 MB per block.
    fn default() -> (r: Self)
        ensures
            r.chain_id@ == "self-chain-mainnet"@,
            r.block_time_secs == BLOCK_TIME_TARGET_SECS,
            r.timeout_propose_window_secs == TIMEOUT_PROPOSE_WINDOW_SECS,
            r.timeout_voting_secs == TIMEOUT_VOTING_SECS,
            r.timeout_finalize_secs == TIMEOUT_FINALIZE_SECS,
            r.committee_size_min == COMMITTEE_SIZE_MIN,
            r.committee_size_max == COMMITTEE_SIZE_MAX,
            r.max_tx_per_block == MAX_TX_PER_BLOCK,
            r.max_block_size == MAX_BLOCK_SIZE,
    {
        ConsensusConfig {
            chain_id: String::from_str(chain_id_mainnet()),
            block_time_secs: BLOCK_TIME_TARGET_SECS,
            timeout_propose_window_secs: TIMEOUT_PROPOSE_WINDOW_SECS,
            timeout_voting_secs: TIMEOUT_VOTING_SECS,
            timeout_finalize_secs: TIMEOUT_FINALIZE_SECS,
            committee_size_min: COMMITTEE_SIZE_MIN,
            committee_size_max: COMMITTEE_SIZE_MAX,
            max_tx_per_block: MAX_TX_PER_BLOCK,
            max_block_size: MAX_BLOCK_SIZE,
        }
    }
}

/// The BFT quorum for a committee of `n` members: `floor(2n/3) + 1`.
pub open spec fn spec_quorum_threshold(n: nat) -> nat {
    n * 2 / 3 + 1
}

impl ConsensusConfig {
    /// Total round duration in seconds.
    pub fn round_duration(&self) -> (r: u64)
        requires
            self.timeout_propose_window_secs + self.timeout_voting_secs
                + self.timeout_finalize_secs <= u64::MAX,
        ensures
            r == self.timeout_propose_window_secs + self.timeout_voting_secs
                + self.timeout_finalize_secs,
    {
        self.timeout_propose_window_secs + self.timeout_voting_secs + self.timeout_finalize_secs
    }

    /// Quorum threshold for a committee of the given size: `floor(2n/3) + 1`.
    pub fn quorum_threshold(&self, committee_size: usize) -> (r: usize)
        requires
            committee_size <= usize::MAX / 2,
        ensures
            r == spec_quorum_threshold(committee_size as nat),
    {
        committee_size * 2 / 3 + 1
    }
}

/// Current phase of a PoAI consensus round.
#[derive(Clone, Copy, Debug, PartialEq, Eq, Hash, Structural)]
pub enum RoundStep {
    /// Proposal window: all builders submit candidate blocks.
    ProposeWindow,
    /// Validators cast ranked votes for the best proposal.
    Voting,
    /// Quorum is checked and the winner finalized.
    Finalize,
    /// The block is committed; waiting for the next height.
    Committed,
}

impl RoundStep {
    /// Human-readable name of the step.
    pub fn name(&self) -> (r: &'static str)
        ensures
            *self is ProposeWindow ==> r@ == "ProposeWindow"@,
            *self is Voting ==> r@ == "Voting"@,
            *self is Finalize ==> r@ == "Finalize"@,
            *self is Committed ==> r@ == "Committed"@,
    {
        match self {
            RoundStep::ProposeWindow => "ProposeWindow",
            RoundStep::Voting => "Voting",
            RoundStep::Finalize => "Finalize",
            RoundStep::Committed => "Committed",
        }
    }
}

/// State of the current consensus round.
#[derive(Clone, Debug)]
pub struct RoundState {
    /// Current block height.
    pub height: u64,
    /// Current consensus round within the height (0-indexed).
    pub round: u64,
    /// Current step in the round.
    pub step: RoundStep,
    /// Best verified efficiency seen so far this round.
    pub reference_efficiency: u64,
    /// Number of proposals received this round.
    pub proposals_received: usize,
    /// Number of votes received this round.
    pub votes_received: usize,
    /// Winning block hash, once determined (32 bytes).
    pub winner_hash: Option<Vec<u8>>,
}

impl RoundState {
    /// Fresh state at the given height: round 0, proposal window open.
    pub fn new(height: u64) -> (r: Self)
        ensures
            r.height == height,
            r.round == 0,
            r.step is ProposeWindow,
            r.reference_efficiency == 0,
            r.proposals_received == 0,
            r.votes_received == 0,
            r.winner_hash is None,
    {
        RoundState {
            height,
            round: 0,
            step: RoundStep::ProposeWindow,
            reference_efficiency: 0,
            proposals_received: 0,
            votes_received: 0,
            winner_hash: None,
        }
    }

    /// Advance to the next round after a timeout or failed quorum.
    /// The height is unchanged and the round increases by one.
    pub fn advance_round(&mut self)
        requires
            old(self).round < u64::MAX,
        ensures
            final(self).height == old(self).height,
            final(self).round == old(self).round + 1,
            final(self).step is ProposeWindow,
            final(self).reference_efficiency == old(self).reference_efficiency,
            final(self).proposals_received == 0,
            final(self).votes_received == 0,
            final(self).winner_hash is None,
    {
        self.round = self.round + 1;
        self.step = RoundStep::ProposeWindow;
        self.proposals_received = 0;
        self.votes_received = 0;
        self.winner_hash = None;
    }

    /// Reset to round 0 of a new height after a successful commit.
    pub fn new_height(&mut self, height: u64)
        ensures
            final(self).height == height,
            final(self).round == 0,
            final(self).step is ProposeWindow,
            final(self).reference_efficiency == 0,
            final(self).proposals_received == 0,
            final(self).votes_received == 0,
            final(self).winner_hash is None,
    {
        self.height = height;
        self.round = 0;
        self.step = RoundStep::ProposeWindow;
        self.reference_efficiency = 0;
        self.proposals_received = 0;
        self.votes_received = 0;
        self.winner_hash = None;
    }
}

/// Committee-facing information about a validator.
#[derive(Clone, Debug)]
pub struct ValidatorInfo {
    /// Unique validator identifier.
    pub validator_id: String,
    /// Ed25519 public key (32 bytes).
    pub public_key: Vec<u8>,
    /// Whether the validator is currently eligible for committee selection.
    pub is_eligible: bool,
    /// Constellation this validator belongs to.
    pub constellation_id: String,
}

impl ValidatorInfo {
    /// A new, eligible validator.
    pub fn new(validator_id: String, public_key: Vec<u8>, constellation_id: String) -> (r: Self)
        ensures
            r.validator_id@ == validator_id@,
            r.public_key@ == public_key@,
            r.is_eligible,
            r.constellation_id@ == constellation_id@,
    {
        ValidatorInfo { validator_id, public_key, is_eligible: true, constellation_id }
    }
}

/// Signature carried inside a commit proof.
#[derive(Clone, Debug)]
pub struct CommitSignatureMsg {
    /// Validator that signed.
    pub validator_id: String,
    /// Ed25519 signature (64 bytes).
    pub signature: Vec<u8>,
}

/// Messages exchanged during consensus.
#[derive(Clone, Debug)]
pub enum ConsensusMessage {
    /// Block proposal from a builder.
    Proposal {
        height: u64,
        round: u64,
        proposer_id: String,
        block_hash: Vec<u8>,
        efficiency_score: u64,
        /// Canonically encoded block.
        block_data: Vec<u8>,
        /// Proposer's signature (64 bytes).
        signature: Vec<u8>,
    },
    /// Ranked vote for the best proposal.
    RankedVote {
        height: u64,
        round: u64,
        block_hash: Vec<u8>,
        efficiency_score: u64,
        validator_id: String,
        signature: Vec<u8>,
    },
    /// Commit proof carrying a quorum of signatures.
    Commit {
        height: u64,
        round: u64,
        block_hash: Vec<u8>,
        signatures: Vec<CommitSignatureMsg>,
    },
}

impl ConsensusMessage {
    /// The height this message is for.
    pub fn height(&self) -> (r: u64)
        ensures
            r == self.spec_height(),
    {
        match self {
            ConsensusMessage::Proposal { height, .. } => *height,
            ConsensusMessage::RankedVote { height, .. } => *height,
            ConsensusMessage::Commit { height, .. } => *height,
        }
    }

    /// The round this message is for.
    pub fn round(&self) -> (r: u64)
        ensures
            r == self.spec_round(),
    {
        match self {
            ConsensusMessage::Proposal { round, .. } => *round,
            ConsensusMessage::RankedVote { round, .. } => *round,
            ConsensusMessage::Commit { round, .. } => *round,
        }
    }

    /// The height this message is for.
    pub open spec fn spec_height(&self) -> u64 {
        match self {
            ConsensusMessage::Proposal { height, .. } => *height,
            ConsensusMessage::RankedVote { height, .. } => *height,
            ConsensusMessage::Commit { height, .. } => *height,
        }
    }

    /// The round this message is for.
    pub open spec fn spec_round(&self) -> u64 {
        match self {
            ConsensusMessage::Proposal { round, .. } => *round,
            ConsensusMessage::RankedVote { round, .. } => *round,
            ConsensusMessage::Commit { round, .. } => *round,
        }
    }
}

/// Errors that can occur during consensus.
#[derive(Clone, Debug)]
pub enum ConsensusError {
    /// The proposal is malformed or arrived out of place.
    InvalidProposal(String),
    /// The vote is malformed or names an unknown proposal.
    InvalidVote(String),
    /// A signature failed to verify.
    InvalidSignature(String),
    /// The sender is not a member of the current committee.
    NotInCommittee(String),
    /// No block hash gathered a quorum of ranked votes.
    QuorumNotReached,
    /// The message names a height other than the current one.
    WrongHeight { expected: u64, got: u64 },
    /// The message names a round other than the current one.
    WrongRound { expected: u64, got: u64 },
    /// A phase of the round timed out.
    Timeout { step: RoundStep },
    /// The validator already voted for this block hash in this round.
    DuplicateVote(String),
    /// The validator signed conflicting votes in one round.
    Equivocation { validator_id: String },
    /// The block failed validation.
    BlockValidation(String),
    /// The claimed efficiency does not match the re-derived one.
    EfficiencyMismatch { claimed: u64, actual: u64 },
    /// The proposal scores below the reference efficiency.
    BelowReference { proposal: u64, reference: u64 },
    /// Unrecoverable internal error.
    Internal(String),
}

impl ConsensusError {
    /// Short description of the error kind, with any carried detail
    /// appended.
    pub fn message(&self) -> (r: String)
        ensures
            self matches ConsensusError::InvalidProposal(d) ==> r@ == "invalid proposal: "@ + d@,
            self matches ConsensusError::InvalidVote(d) ==> r@ == "invalid vote: "@ + d@,
            self matches ConsensusError::InvalidSignature(d) ==> r@ == "invalid signature: "@
                + d@,
            self matches ConsensusError::NotInCommittee(d) ==> r@
                == "validator not in committee: "@ + d@,
            self is QuorumNotReached ==> r@ == "quorum not reached"@,
            self is WrongHeight ==> r@ == "wrong height"@,
            self is WrongRound ==> r@ == "wrong round"@,
            self matches ConsensusError::Timeout { step } ==> r@ == "timeout in step "@ + (
            match step {
                RoundStep::ProposeWindow => "ProposeWindow"@,
                RoundStep::Voting => "Voting"@,
                RoundStep::Finalize => "Finalize"@,
                RoundStep::Committed => "Committed"@,
            }),
            self matches ConsensusError::DuplicateVote(d) ==> r@
                == "duplicate vote from validator: "@ + d@,
            self matches ConsensusError::Equivocation { validator_id } ==> r@
                == "equivocation detected: "@ + validator_id@,
            self matches ConsensusError::BlockValidation(d) ==> r@
                == "block validation failed: "@ + d@,
            self is EfficiencyMismatch ==> r@ == "efficiency mismatch"@,
            self is BelowReference ==> r@ == "below reference efficiency"@,
            self matches ConsensusError::Internal(d) ==> r@ == "internal error: "@ + d@,
    {
        let mut m = String::new();
        match self {
            ConsensusError::InvalidProposal(d) => {
                m.append("invalid proposal: ");
                m.append(d.as_str());
            },
            ConsensusError::InvalidVote(d) => {
                m.append("invalid vote: ");
                m.append(d.as_str());
            },
            ConsensusError::InvalidSignature(d) => {
                m.append("invalid signature: ");
                m.append(d.as_str());
            },
            ConsensusError::NotInCommittee(d) => {
                m.append("validator not in committee: ");
                m.append(d.as_str());
            },
            ConsensusError::QuorumNotReached => {
                m.append("quorum not reached");
            },
            ConsensusError::WrongHeight { .. } => {
                m.append("wrong height");
            },
            ConsensusError::WrongRound { .. } => {
                m.append("wrong round");
            },
            ConsensusError::Timeout { step } => {
                m.append("timeout in step ");
                m.append(step.name());
            },
            ConsensusError::DuplicateVote(d) => {
                m.append("duplicate vote from validator: ");
                m.append(d.as_str());
            },
            ConsensusError::Equivocation { validator_id } => {
                m.append("equivocation detected: ");
                m.append(validator_id.as_str());
            },
            ConsensusError::BlockValidation(d) => {
                m.append("block validation failed: ");
                m.append(d.as_str());
            },
            ConsensusError::EfficiencyMismatch { .. } => {
                m.append("efficiency mismatch");
            },
            ConsensusError::BelowReference { .. } => {
                m.append("below reference efficiency");
            },
            ConsensusError::Internal(d) => {
                m.append("internal error: ");
                m.append(d.as_str());
            },
        }
        m
    }
}

/// Result type for consensus operations.
pub type ConsensusResult<T> = Result<T, ConsensusError>;

} // verus!
