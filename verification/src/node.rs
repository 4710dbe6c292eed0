//! Node-level data types: node roles, configuration, and the vote
//! records validators keep about their own history.

use vstd::prelude::*;

verus! {

/// The role a node plays in the network.
#[derive(Clone, Copy, Debug, PartialEq, Eq, Structural)]
pub enum NodeType {
    /// Lite node that votes and validates color markers.
    Validator,
    /// Full node that builds blocks.
    BlockBuilder,
    /// Service that organizes voting rounds and reference blocks.
    Coordinator,
}

/// Configuration common to every node role.
#[derive(Clone, Debug)]
pub struct NodeConfig {
    /// Unique node identifier.
    pub node_id: String,
    /// The node's role.
    pub node_type: NodeType,
    /// Address the node listens on.
    pub listen_addr: String,
    /// Peers to contact at startup.
    pub bootstrap_peers: Vec<String>,
}

/// A validator's signed verdict on one block.
#[derive(Clone, Debug)]
pub struct Vote {
    /// The voting validator.
    pub validator_id: String,
    /// Hex of the block hash voted on.
    pub block_hash: String,
    /// The verdict.
    pub approve: bool,
    /// Signature over the vote message.
    pub signature: Vec<u8>,
    /// When the vote was cast, seconds since epoch.
    pub timestamp: u64,
}

/// One line of a validator's voting history.
#[derive(Clone, Debug)]
pub struct VoteRecord {
    /// Hex of the block hash voted on.
    pub block_hash: String,
    /// The verdict that was cast.
    pub approved: bool,
    /// When the vote was cast, seconds since epoch.
    pub timestamp: u64,
}

/// Summary statistics of a validator's history.
#[derive(Clone, Debug)]
pub struct ValidatorStats {
    /// The node the statistics are about.
    pub node_id: String,
    /// Number of votes cast.
    pub total_votes: usize,
    /// Number of approving votes.
    pub approved_votes: usize,
    /// Number of rejecting votes.
    pub rejected_votes: usize,
    /// Number of wallet colors held.
    pub wallet_colors_stored: usize,
}

/// Number of approving records among the first `upto`.
pub open spec fn spec_approved_count(h: Seq<VoteRecord>, upto: int) -> int
    decreases upto,
{
    if upto <= 0 {
        0
    } else {
        spec_approved_count(h, upto - 1) + (if h[upto - 1].approved {
            1int
        } else {
            0int
        })
    }
}

/// The approved count never exceeds the record count.
pub proof fn lemma_approved_count_bound(h: Seq<VoteRecord>, upto: int)
    ensures
        0 <= spec_approved_count(h, upto),
        upto >= 0 ==> spec_approved_count(h, upto) <= upto,
    decreases upto,
{
    if upto > 0 {
        lemma_approved_count_bound(h, upto - 1);
    }
}

impl ValidatorStats {
    /// Summarize a voting history: total votes, approvals, rejections.
    pub fn from_history(node_id: String, history: &Vec<VoteRecord>, wallet_colors_stored: usize) -> (r: Self)
        ensures
            r.node_id@ == node_id@,
            r.total_votes == history@.len(),
            r.approved_votes == spec_approved_count(history@, history@.len() as int),
            r.rejected_votes == history@.len() - spec_approved_count(
                history@,
                history@.len() as int,
            ),
            r.wallet_colors_stored == wallet_colors_stored,
    {
        let mut approved: usize = 0;
        let mut i: usize = 0;
        while i < history.len()
            invariant
                i <= history@.len(),
                approved == spec_approved_count(history@, i as int),
                approved <= i,
            decreases history@.len() - i,
        {
            proof {
                lemma_approved_count_bound(history@, i + 1);
            }
            if history[i].approved {
                approved = approved + 1;
            }
            i = i + 1;
        }
        proof {
            lemma_approved_count_bound(history@, history@.len() as int);
        }
        ValidatorStats {
            node_id,
            total_votes: history.len(),
            approved_votes: approved,
            rejected_votes: history.len() - approved,
            wallet_colors_stored,
        }
    }
}

/// The outcome of an approval-style voting round.
#[derive(Clone, Debug)]
pub struct VotingResult {
    /// Identifier of the round.
    pub round_id: u64,
    /// Hex of the winning block hash, if one won.
    pub winner: Option<String>,
    /// Total approving votes counted.
    pub total_votes: usize,
}

/// Eligibility thresholds a validator must meet.
#[derive(Clone, Debug)]
pub struct ValidatorConfig {
    /// Minimum hours of activity required to validate.
    pub min_active_hours: u64,
    /// Minimum token balance required to validate.
    pub min_balance: u64,
    /// Length of the validation window, in seconds.
    pub validation_window: u64,
}

impl Default for ValidatorConfig {
    /// Defaults: a day of activity, a thousand tokens, an hour-long
    /// window.
    fn default() -> (r: Self)
        ensures
            r.min_active_hours == 24,
            r.min_balance == 1_000_000,
            r.validation_window == 3600,
    {
        ValidatorConfig { min_active_hours: 24, min_balance: 1_000_000, validation_window: 3600 }
    }
}

} // verus!
