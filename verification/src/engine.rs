//! The round state machine and the ranked-vote tally.
//!
//! The engine is a pure transition system: the caller delivers
//! proposals, ranked votes and clock ticks, and the engine answers with
//! events.  Within one height the round never decreases; a block is
//! committed exactly when one block hash gathers a BFT quorum
//! (`floor(2n/3) + 1`) of ranked votes from distinct committee members.
//!
//! The engine trusts its caller to have verified message signatures and
//! re-derived proposal efficiencies (`validate_proposal`); it enforces
//! everything else: height, round, phase, committee membership, one
//! vote per validator, and equivocation evidence.

use vstd::prelude::*;
use vstd::string::*;
use crate::consensus::{
    CommitSignatureMsg, ConsensusConfig, ConsensusError, RoundState, RoundStep, ValidatorInfo,
    spec_quorum_threshold,
};
use crate::vote::{RankedVote, spec_ranked_vote_wf};

verus! {

/// A proposal the engine accepted: the best proposal seen so far from
/// one proposer.
#[derive(Clone, Debug)]
pub struct AcceptedProposal {
    /// Hash of the proposed block (32 bytes).
    pub block_hash: Vec<u8>,
    /// The proposer.
    pub proposer_id: String,
    /// Verified efficiency score of the proposal.
    pub efficiency_score: u64,
}

/// The ranked votes gathered for one block hash.
#[derive(Debug)]
pub struct VoteEntry {
    /// The block hash voted for (32 bytes).
    pub block_hash: Vec<u8>,
    /// The votes, one per validator.
    pub votes: Vec<RankedVote>,
}

/// Why a round was advanced.
#[derive(Clone, Copy, Debug, PartialEq, Eq, Structural)]
pub enum AdvanceReason {
    /// A phase of the round timed out.
    Timeout { step: RoundStep },
}

/// Events the engine publishes to its subscribers.
#[derive(Debug)]
pub enum ConsensusEvent {
    /// A proposal was accepted into the current round.
    ProposalAccepted { block_hash: Vec<u8>, proposer_id: String, efficiency_score: u64 },
    /// The round advanced without a commit.
    RoundAdvanced { height: u64, round: u64, reason: AdvanceReason },
    /// A block gathered a quorum and was committed.
    BlockCommitted { height: u64, block_hash: Vec<u8>, commit_signatures: Vec<CommitSignatureMsg> },
    /// A validator signed two conflicting votes in one round.
    EquivocationDetected { validator_id: String, evidence: (RankedVote, RankedVote) },
}

/// No two committee members share a validator id.
pub open spec fn spec_committee_distinct(c: Seq<ValidatorInfo>) -> bool {
    forall|i: int, j: int|
        0 <= i < j < c.len() ==> #[trigger] c[i].validator_id@ != #[trigger] c[j].validator_id@
}

/// Whether an id belongs to the committee.
pub open spec fn spec_in_committee(c: Seq<ValidatorInfo>, id: Seq<char>) -> bool {
    exists|i: int| 0 <= i < c.len() && #[trigger] c[i].validator_id@ == id
}

/// Whether some accepted proposal carries the hash.
pub open spec fn spec_has_proposal(ps: Seq<AcceptedProposal>, hash: Seq<u8>) -> bool {
    exists|i: int| 0 <= i < ps.len() && #[trigger] ps[i].block_hash@ == hash
}

/// Whether some accepted proposal comes from the proposer.
pub open spec fn spec_proposer_represented(ps: Seq<AcceptedProposal>, id: Seq<char>) -> bool {
    exists|i: int| 0 <= i < ps.len() && #[trigger] ps[i].proposer_id@ == id
}

/// No two accepted proposals share a proposer.
pub open spec fn spec_proposers_distinct(ps: Seq<AcceptedProposal>) -> bool {
    forall|i: int, j: int|
        0 <= i < j < ps.len() ==> #[trigger] ps[i].proposer_id@ != #[trigger] ps[j].proposer_id@
}

/// How an accepted proposal changes the proposal set.  A proposer not
/// yet represented gains a fresh entry with the submitted hash and
/// score; a represented proposer keeps its entry, which is replaced by
/// the submitted hash and score exactly when that score is larger.
/// Entries of every other proposer are unchanged.
pub open spec fn spec_proposal_upserted(
    before: Seq<AcceptedProposal>,
    after: Seq<AcceptedProposal>,
    hash: Seq<u8>,
    pid: Seq<char>,
    score: u64,
) -> bool {
    if !spec_proposer_represented(before, pid) {
        &&& after.len() == before.len() + 1
        &&& (forall|k: int| 0 <= k < before.len() ==> #[trigger] after[k] == before[k])
        &&& after.last().block_hash@ == hash
        &&& after.last().proposer_id@ == pid
        &&& after.last().efficiency_score == score
    } else {
        &&& after.len() == before.len()
        &&& exists|i: int|
            0 <= i < before.len() && #[trigger] before[i].proposer_id@ == pid && (forall|k: int|
                0 <= k < before.len() && k != i ==> #[trigger] after[k] == before[k]) && (score
                > before[i].efficiency_score ==> after[i].block_hash@ == hash
                && after[i].proposer_id@ == pid && after[i].efficiency_score == score) && (score
                <= before[i].efficiency_score ==> after[i] == before[i])
    }
}

/// Whether the validator already has a vote in the tally.
pub open spec fn spec_voted(t: Seq<VoteEntry>, id: Seq<char>) -> bool {
    exists|e: int, i: int|
        0 <= e < t.len() && 0 <= i < t[e].votes@.len() && #[trigger] t[e].votes@[i].validator_id@
            == id
}

/// No validator has two votes anywhere in the tally.
pub open spec fn spec_voters_distinct(t: Seq<VoteEntry>) -> bool {
    forall|e1: int, i1: int, e2: int, i2: int|
        0 <= e1 < t.len() && 0 <= i1 < t[e1].votes@.len() && 0 <= e2 < t.len() && 0 <= i2
            < t[e2].votes@.len() && (e1 != e2 || i1 != i2)
            ==> #[trigger] t[e1].votes@[i1].validator_id@ != #[trigger] t[e2].votes@[i2].validator_id@
}

/// Well-formedness of the tally for a given height and round: entry
/// hashes are distinct 32-byte values, each vote sits under its own
/// hash, carries the current height and round, is well-formed, comes
/// from a committee member, and no validator votes twice.
pub open spec fn spec_tally_wf(
    t: Seq<VoteEntry>,
    c: Seq<ValidatorInfo>,
    height: u64,
    round: u64,
) -> bool {
    &&& forall|e: int| 0 <= e < t.len() ==> (#[trigger] t[e].block_hash@).len() == 32
    &&& forall|e1: int, e2: int|
        0 <= e1 < e2 < t.len() ==> #[trigger] t[e1].block_hash@ != #[trigger] t[e2].block_hash@
    &&& forall|e: int, i: int|
        0 <= e < t.len() && 0 <= i < t[e].votes@.len() ==> (#[trigger] t[e].votes@[i]).block_hash@
            == t[e].block_hash@ && t[e].votes@[i].height == height && t[e].votes@[i].round == round
            && spec_ranked_vote_wf(&t[e].votes@[i]) && spec_in_committee(
            c,
            t[e].votes@[i].validator_id@,
        )
    &&& spec_voters_distinct(t)
}

/// The PoAI consensus engine for one chain instance.
pub struct ConsensusEngine {
    /// Protocol configuration.
    pub config: ConsensusConfig,
    /// The current committee.
    pub committee: Vec<ValidatorInfo>,
    /// Round state.
    pub state: RoundState,
    /// Monotonic anchor of the current round, in seconds.
    pub round_start: u64,
    /// Accepted proposals of the current round, one per proposer.
    pub proposals: Vec<AcceptedProposal>,
    /// Ranked votes of the current round, grouped by block hash.
    pub tally: Vec<VoteEntry>,
    /// Equivocation evidence collected so far (kept across rounds).
    pub evidence: Vec<(RankedVote, RankedVote)>,
}

/// The engine invariant.
pub open spec fn spec_engine_wf(e: &ConsensusEngine) -> bool {
    &&& spec_committee_distinct(e.committee@)
    &&& e.committee@.len() <= 100
    &&& forall|i: int| 0 <= i < e.proposals@.len() ==> (#[trigger] e.proposals@[i].block_hash@).len() == 32
    &&& spec_proposers_distinct(e.proposals@)
    &&& spec_tally_wf(e.tally@, e.committee@, e.state.height, e.state.round)
}

impl ConsensusEngine {
    /// A new engine at the given height, with the proposal window just
    /// opened.
    pub fn new(config: ConsensusConfig, committee: Vec<ValidatorInfo>, height: u64, now: u64) -> (r:
        Self)
        requires
            spec_committee_distinct(committee@),
            committee@.len() <= 100,
        ensures
            spec_engine_wf(&r),
            r.state.height == height,
            r.state.round == 0,
            r.state.step is ProposeWindow,
            r.state.reference_efficiency == 0,
            r.state.proposals_received == 0,
            r.state.votes_received == 0,
            r.state.winner_hash is None,
            r.round_start == now,
            r.proposals@.len() == 0,
            r.tally@.len() == 0,
            r.evidence@.len() == 0,
            r.committee@ == committee@,
            r.config == config,
    {
        ConsensusEngine {
            config,
            committee,
            state: RoundState::new(height),
            round_start: now,
            proposals: Vec::new(),
            tally: Vec::new(),
            evidence: Vec::new(),
        }
    }

    /// The quorum of the current committee: `floor(2n/3) + 1`.
    pub fn quorum(&self) -> (r: usize)
        requires
            spec_engine_wf(self),
        ensures
            r == spec_quorum_threshold(self.committee@.len()),
    {
        self.committee.len() * 2 / 3 + 1
    }

    /// Whether an id belongs to the committee.
    fn committee_contains(&self, id: &String) -> (r: bool)
        ensures
            r == spec_in_committee(self.committee@, id@),
    {
        let mut i: usize = 0;
        while i < self.committee.len()
            invariant
                i <= self.committee@.len(),
                forall|j: int| 0 <= j < i ==> #[trigger] self.committee@[j].validator_id@ != id@,
            decreases self.committee@.len() - i,
        {
            if self.committee[i].validator_id.eq(id) {
                return true;
            }
            i = i + 1;
        }
        false
    }

    /// Accept a proposal into the current round.
    ///
    /// The caller has already validated the proposal
    /// (`validate_proposal`): the engine checks height, round and
    /// phase, keeps the best proposal per proposer, and raises the
    /// round's reference efficiency to the best verified efficiency
    /// seen.
    #[verifier::loop_isolation(false)]
    pub fn submit_proposal(
        &mut self,
        block_hash: Vec<u8>,
        proposer_id: String,
        efficiency_score: u64,
        height: u64,
        round: u64,
        out_events: &mut Vec<ConsensusEvent>,
    ) -> (r: Result<(), ConsensusError>)
        requires
            spec_engine_wf(old(self)),
            block_hash@.len() == 32,
            old(self).state.proposals_received < usize::MAX,
        ensures
            spec_engine_wf(final(self)),
            final(self).state.height == old(self).state.height,
            final(self).state.round == old(self).state.round,
            final(self).state.step == old(self).state.step,
            final(self).state.votes_received == old(self).state.votes_received,
            final(self).state.winner_hash == old(self).state.winner_hash,
            final(self).tally@ == old(self).tally@,
            final(self).committee@ == old(self).committee@,
            final(self).config == old(self).config,
            final(self).evidence@ == old(self).evidence@,
            final(self).round_start == old(self).round_start,
            height != old(self).state.height <==> (r matches Err(ConsensusError::WrongHeight {
                expected,
                got,
            }) && expected == old(self).state.height && got == height),
            (height == old(self).state.height && round != old(self).state.round) <==> (r matches
            Err(ConsensusError::WrongRound { expected, got }) && expected == old(self).state.round
                && got == round),
            r is Ok <==> height == old(self).state.height && round == old(self).state.round && old(self).state.step is ProposeWindow,
            r is Err ==> final(self).proposals@ == old(self).proposals@ && final(self).state
                == old(self).state && final(out_events)@ == old(out_events)@,
            r is Ok ==> final(self).state.reference_efficiency == (if efficiency_score > old(self).state.reference_efficiency {
                efficiency_score
            } else {
                old(self).state.reference_efficiency
            }) && final(self).state.proposals_received == old(self).state.proposals_received + 1
                && spec_proposer_represented(final(self).proposals@, proposer_id@)
                && final(out_events)@.len() == old(out_events)@.len() + 1,
            r is Ok ==> spec_proposal_upserted(
                old(self).proposals@,
                final(self).proposals@,
                block_hash@,
                proposer_id@,
                efficiency_score,
            ),
            r is Ok && !spec_proposer_represented(old(self).proposals@, proposer_id@)
                ==> spec_has_proposal(final(self).proposals@, block_hash@)
                && final(self).proposals@.len() == old(self).proposals@.len() + 1,
            r is Ok ==> final(out_events)@.drop_last() == old(out_events)@ && (final(out_events)@.last()
                matches ConsensusEvent::ProposalAccepted { block_hash: bh, proposer_id: pid, efficiency_score: es }
                && bh@ == block_hash@ && pid@ == proposer_id@ && es == efficiency_score),
    {
        if height != self.state.height {
            return Err(ConsensusError::WrongHeight { expected: self.state.height, got: height });
        }
        if round != self.state.round {
            return Err(ConsensusError::WrongRound { expected: self.state.round, got: round });
        }
        match self.state.step {
            RoundStep::ProposeWindow => {},
            _ => {
                return Err(
                    ConsensusError::InvalidProposal(
                        String::from_str("proposal outside the proposal window"),
                    ),
                );
            },
        }
        // Keep the best proposal per proposer.
        let ghost props0 = self.proposals@;
        let mut found = false;
        let mut at: usize = 0;
        let mut i: usize = 0;
        while i < self.proposals.len()
            invariant
                i <= self.proposals@.len(),
                !found ==> forall|j: int|
                    0 <= j < i ==> #[trigger] self.proposals@[j].proposer_id@ != proposer_id@,
                found ==> at < self.proposals@.len()
                    && self.proposals@[at as int].proposer_id@ == proposer_id@,
            decreases self.proposals@.len() - i,
        {
            if !found && self.proposals[i].proposer_id.eq(&proposer_id) {
                found = true;
                at = i;
            }
            i = i + 1;
        }
        if found {
            proof {
                assert(props0[at as int].proposer_id@ == proposer_id@);
                assert(spec_proposer_represented(props0, proposer_id@));
            }
            if efficiency_score > self.proposals[at].efficiency_score {
                let entry = AcceptedProposal {
                    block_hash: block_hash.clone(),
                    proposer_id: proposer_id.clone(),
                    efficiency_score,
                };
                self.proposals.set(at, entry);
            }
            proof {
                assert forall|k: int|
                    0 <= k < self.proposals@.len() implies (#[trigger] self.proposals@[k].block_hash@).len()
                    == 32 by {
                    if k != at as int {
                        assert(self.proposals@[k] == props0[k]);
                    }
                }
                assert forall|k: int|
                    0 <= k < self.proposals@.len() implies #[trigger] self.proposals@[k].proposer_id@
                    == props0[k].proposer_id@ by {
                    if k != at as int {
                        assert(self.proposals@[k] == props0[k]);
                    }
                }
                assert forall|x: int, y: int|
                    0 <= x < y < self.proposals@.len() implies #[trigger] self.proposals@[x].proposer_id@
                    != #[trigger] self.proposals@[y].proposer_id@ by {
                    assert(props0[x].proposer_id@ != props0[y].proposer_id@);
                }
                assert(spec_proposal_upserted(
                    props0,
                    self.proposals@,
                    block_hash@,
                    proposer_id@,
                    efficiency_score,
                )) by {
                    assert(0 <= at < props0.len() && props0[at as int].proposer_id@ == proposer_id@
                        && (forall|k: int|
                        0 <= k < props0.len() && k != at ==> #[trigger] self.proposals@[k]
                            == props0[k]) && (efficiency_score > props0[at as int].efficiency_score
                        ==> self.proposals@[at as int].block_hash@ == block_hash@
                        && self.proposals@[at as int].proposer_id@ == proposer_id@
                        && self.proposals@[at as int].efficiency_score == efficiency_score) && (
                    efficiency_score <= props0[at as int].efficiency_score
                        ==> self.proposals@[at as int] == props0[at as int]));
                }
            }
        } else {
            let entry = AcceptedProposal {
                block_hash: block_hash.clone(),
                proposer_id: proposer_id.clone(),
                efficiency_score,
            };
            self.proposals.push(entry);
            proof {
                assert(!spec_proposer_represented(props0, proposer_id@));
                let le = self.proposals@.len() - 1;
                assert(self.proposals@[le].proposer_id@ == proposer_id@);
                assert(self.proposals@[le].block_hash@ == block_hash@);
                assert(spec_has_proposal(self.proposals@, block_hash@));
                assert forall|k: int|
                    0 <= k < self.proposals@.len() implies (#[trigger] self.proposals@[k].block_hash@).len()
                    == 32 by {
                    if k < le {
                        assert(self.proposals@[k] == props0[k]);
                    }
                }
                assert forall|x: int, y: int|
                    0 <= x < y < self.proposals@.len() implies #[trigger] self.proposals@[x].proposer_id@
                    != #[trigger] self.proposals@[y].proposer_id@ by {
                    if y < le {
                        assert(self.proposals@[x] == props0[x]);
                        assert(self.proposals@[y] == props0[y]);
                    } else {
                        assert(self.proposals@[x] == props0[x]);
                        assert(props0[x].proposer_id@ != proposer_id@);
                    }
                }
            }
        }
        if efficiency_score > self.state.reference_efficiency {
            self.state.reference_efficiency = efficiency_score;
        }
        self.state.proposals_received = self.state.proposals_received + 1;
        let ghost evs0 = out_events@;
        out_events.push(
            ConsensusEvent::ProposalAccepted {
                block_hash,
                proposer_id,
                efficiency_score,
            },
        );
        proof {
            assert(out_events@.drop_last() =~= evs0);
        }
        Ok(())
    }
}

/// The votes currently gathered for a hash: the size of its entry, or
/// zero when no entry exists.
pub open spec fn spec_votes_for(t: Seq<VoteEntry>, hash: Seq<u8>) -> int
    decreases t.len(),
{
    if t.len() == 0 {
        0
    } else if t.last().block_hash@ == hash {
        t.last().votes@.len() as int
    } else {
        spec_votes_for(t.drop_last(), hash)
    }
}

/// Whether votes are being accepted in this phase: during the proposal
/// window (early voting) and the voting phase.
pub open spec fn spec_vote_phase_ok(step: RoundStep) -> bool {
    step is ProposeWindow || step is Voting
}

/// The admission checks of a ranked vote that do not look at earlier
/// votes: right height, round and phase, a committee member, and a
/// known proposal hash (or nil).
pub open spec fn spec_vote_admissible(e: ConsensusEngine, vote: RankedVote) -> bool {
    &&& vote.height == e.state.height
    &&& vote.round == e.state.round
    &&& spec_vote_phase_ok(e.state.step)
    &&& spec_in_committee(e.committee@, vote.validator_id@)
    &&& (spec_has_proposal(e.proposals@, vote.block_hash@) || vote.block_hash@
        == crate::vote::spec_nil_hash())
}

/// Whether the engine accepts this vote: it is admissible and its
/// validator has not voted before in this round.
pub open spec fn spec_vote_accepted(e: ConsensusEngine, vote: RankedVote) -> bool {
    &&& spec_vote_admissible(e, vote)
    &&& !spec_voted(e.tally@, vote.validator_id@)
}

/// Whether the validator already has a vote in the tally for a hash
/// other than the given one.
pub open spec fn spec_voted_other(t: Seq<VoteEntry>, id: Seq<char>, hash: Seq<u8>) -> bool {
    exists|e: int, i: int|
        0 <= e < t.len() && 0 <= i < t[e].votes@.len() && #[trigger] t[e].votes@[i].validator_id@
            == id && t[e].votes@[i].block_hash@ != hash
}

/// Whether some tally entry carries the hash.
pub open spec fn spec_tally_has_hash(t: Seq<VoteEntry>, hash: Seq<u8>) -> bool {
    exists|e: int| 0 <= e < t.len() && #[trigger] t[e].block_hash@ == hash
}

/// Whether a result is the equivocation error.
pub open spec fn spec_is_equivocation(r: Result<(), ConsensusError>) -> bool {
    match r {
        Err(ConsensusError::Equivocation { .. }) => true,
        _ => false,
    }
}

/// Whether a result is the duplicate-vote error.
pub open spec fn spec_is_duplicate(r: Result<(), ConsensusError>) -> bool {
    match r {
        Err(ConsensusError::DuplicateVote(_)) => true,
        _ => false,
    }
}

/// How one accepted vote extends the tally: the vote is appended to its
/// hash's entry when one exists, else a fresh entry holding exactly
/// this vote is appended.  Every other entry is unchanged.
pub open spec fn spec_tally_extended(
    before: Seq<VoteEntry>,
    after: Seq<VoteEntry>,
    vote: RankedVote,
) -> bool {
    if spec_tally_has_hash(before, vote.block_hash@) {
        exists|e: int|
            0 <= e < before.len() && #[trigger] before[e].block_hash@ == vote.block_hash@
                && after.len() == before.len() && (forall|k: int|
                0 <= k < before.len() && k != e ==> #[trigger] after[k] == before[k])
                && after[e].block_hash@ == before[e].block_hash@ && after[e].votes@
                == before[e].votes@.push(vote)
    } else {
        &&& after.len() == before.len() + 1
        &&& (forall|k: int| 0 <= k < before.len() ==> #[trigger] after[k] == before[k])
        &&& after.last().block_hash@ == vote.block_hash@
        &&& after.last().votes@ == seq![vote]
    }
}

/// A batch of commit signatures drawn one-for-one from a batch of
/// votes.
pub open spec fn spec_sigs_match_votes(sigs: Seq<CommitSignatureMsg>, votes: Seq<RankedVote>) -> bool {
    sigs.len() == votes.len() && forall|i: int|
        0 <= i < sigs.len() ==> (#[trigger] sigs[i]).validator_id@ == votes[i].validator_id@
            && sigs[i].signature@ == votes[i].signature@
}

/// What a quorum commit leaves behind: the round is committed with the
/// voted hash as winner, and exactly one `BlockCommitted` event was
/// published, carrying one commit signature per ranked vote gathered
/// for that hash — pairwise-distinct committee members, one of them the
/// vote that completed the quorum.
pub open spec fn spec_commit_outcome(
    pre: ConsensusEngine,
    post: ConsensusEngine,
    vote: RankedVote,
    evs_pre: Seq<ConsensusEvent>,
    evs_post: Seq<ConsensusEvent>,
) -> bool {
    &&& post.state.step is Committed
    &&& (post.state.winner_hash matches Some(w) && w@ == vote.block_hash@)
    &&& evs_post.len() == evs_pre.len() + 1
    &&& evs_post.drop_last() == evs_pre
    &&& (evs_post.last() matches ConsensusEvent::BlockCommitted {
        height,
        block_hash,
        commit_signatures,
    } && height == pre.state.height && block_hash@ == vote.block_hash@
        && commit_signatures@.len() == spec_votes_for(pre.tally@, vote.block_hash@) + 1
        && commit_signatures@.len() >= spec_quorum_threshold(pre.committee@.len()) && (exists|e: int|
        0 <= e < post.tally@.len() && #[trigger] post.tally@[e].block_hash@ == vote.block_hash@
            && spec_sigs_match_votes(commit_signatures@, post.tally@[e].votes@)) && (forall|
        i: int,
        j: int,
    |
        0 <= i < j < commit_signatures@.len() ==> (#[trigger] commit_signatures@[i]).validator_id@
            != (#[trigger] commit_signatures@[j]).validator_id@) && (forall|i: int|
        0 <= i < commit_signatures@.len() ==> spec_in_committee(
            pre.committee@,
            (#[trigger] commit_signatures@[i]).validator_id@,
        )))
}

impl ConsensusEngine {
    /// Index of the tally entry for a hash, if one exists.
    fn find_entry(&self, hash: &Vec<u8>) -> (r: Option<usize>)
        ensures
            r matches Some(i) ==> i < self.tally@.len() && self.tally@[i as int].block_hash@
                == hash@,
            r is None ==> forall|i: int|
                0 <= i < self.tally@.len() ==> #[trigger] self.tally@[i].block_hash@ != hash@,
    {
        let mut i: usize = 0;
        while i < self.tally.len()
            invariant
                i <= self.tally@.len(),
                forall|j: int| 0 <= j < i ==> #[trigger] self.tally@[j].block_hash@ != hash@,
            decreases self.tally@.len() - i,
        {
            if crate::hexstr::bytes_eq(&self.tally[i].block_hash, hash) {
                return Some(i);
            }
            i = i + 1;
        }
        None
    }

    /// Position of an earlier vote by the validator, if any.
    fn find_vote(&self, id: &String) -> (r: Option<(usize, usize)>)
        ensures
            r matches Some(p) ==> p.0 < self.tally@.len() && p.1 < self.tally@[p.0 as int].votes@.len()
                && self.tally@[p.0 as int].votes@[p.1 as int].validator_id@ == id@,
            r is None ==> !spec_voted(self.tally@, id@),
    {
        let mut e: usize = 0;
        while e < self.tally.len()
            invariant
                e <= self.tally@.len(),
                forall|e2: int, i2: int|
                    0 <= e2 < e && 0 <= i2 < self.tally@[e2].votes@.len()
                        ==> #[trigger] self.tally@[e2].votes@[i2].validator_id@ != id@,
            decreases self.tally@.len() - e,
        {
            let mut i: usize = 0;
            while i < self.tally[e].votes.len()
                invariant
                    e < self.tally@.len(),
                    i <= self.tally@[e as int].votes@.len(),
                    forall|e2: int, i2: int|
                        0 <= e2 < e && 0 <= i2 < self.tally@[e2].votes@.len()
                            ==> #[trigger] self.tally@[e2].votes@[i2].validator_id@ != id@,
                    forall|i2: int|
                        0 <= i2 < i ==> #[trigger] self.tally@[e as int].votes@[i2].validator_id@
                            != id@,
                decreases self.tally@[e as int].votes@.len() - i,
            {
                if self.tally[e].votes[i].validator_id.eq(id) {
                    return Some((e, i));
                }
                i = i + 1;
            }
            e = e + 1;
        }
        None
    }

    /// Accept a ranked vote into the current round, committing the
    /// block once its hash gathers a quorum.
    ///
    /// The caller has already verified the vote's signature.  A vote
    /// for an unknown proposal is discarded (nil is allowed); a second
    /// vote from the same validator for the same hash is a duplicate;
    /// one for a different hash is equivocation, which is recorded as
    /// evidence and rejected.
    #[verifier::loop_isolation(false)]
    #[verifier::rlimit(100)]
    pub fn submit_ranked_vote(&mut self, vote: RankedVote, out_events: &mut Vec<ConsensusEvent>) -> (r:
        Result<(), ConsensusError>)
        requires
            spec_engine_wf(old(self)),
            spec_ranked_vote_wf(&vote),
            old(self).state.votes_received < usize::MAX,
        ensures
            spec_engine_wf(final(self)),
            final(self).state.height == old(self).state.height,
            final(self).state.round == old(self).state.round,
            final(self).state.reference_efficiency == old(self).state.reference_efficiency,
            final(self).state.proposals_received == old(self).state.proposals_received,
            final(self).committee@ == old(self).committee@,
            final(self).proposals@ == old(self).proposals@,
            final(self).config == old(self).config,
            final(self).round_start == old(self).round_start,
            r is Ok <==> spec_vote_accepted(*old(self), vote),
            r matches Err(ConsensusError::WrongHeight { expected, got }) ==> expected == old(self).state.height && got == vote.height && vote.height != old(self).state.height,
            r matches Err(ConsensusError::WrongRound { expected, got }) ==> expected == old(self).state.round && got == vote.round && vote.round != old(self).state.round,
            r matches Err(ConsensusError::NotInCommittee(_)) ==> !spec_in_committee(
                old(self).committee@,
                vote.validator_id@,
            ),
            spec_is_duplicate(r) <==> spec_vote_admissible(*old(self), vote) && spec_voted(
                old(self).tally@,
                vote.validator_id@,
            ) && !spec_voted_other(old(self).tally@, vote.validator_id@, vote.block_hash@),
            spec_is_equivocation(r) <==> spec_vote_admissible(*old(self), vote) && spec_voted_other(
                old(self).tally@,
                vote.validator_id@,
                vote.block_hash@,
            ),
            r matches Err(ConsensusError::Equivocation { validator_id }) ==> validator_id@
                == vote.validator_id@ && spec_voted(old(self).tally@, vote.validator_id@) && final(self).evidence@.len() == old(self).evidence@.len() + 1 && final(self).evidence@.drop_last()
                == old(self).evidence@ && crate::vote::spec_ranked_vote_eq(
                final(self).evidence@.last().1,
                vote,
            ) && (exists|e: int, i: int|
                0 <= e < old(self).tally@.len() && 0 <= i < old(self).tally@[e].votes@.len()
                    && #[trigger] old(self).tally@[e].votes@[i].validator_id@ == vote.validator_id@
                    && crate::vote::spec_ranked_vote_eq(
                    final(self).evidence@.last().0,
                    old(self).tally@[e].votes@[i],
                )) && final(out_events)@.len() == old(out_events)@.len() + 1 && final(out_events)@.drop_last() == old(out_events)@ && (final(out_events)@.last()
                matches ConsensusEvent::EquivocationDetected { validator_id: vid, evidence }
                && vid@ == vote.validator_id@ && crate::vote::spec_ranked_vote_eq(
                evidence.1,
                vote,
            )),
            r is Err && !spec_is_equivocation(r) ==> final(self).evidence@ == old(self).evidence@
                && final(out_events)@ == old(out_events)@,
            r is Err ==> final(self).tally@ == old(self).tally@ && final(self).state == old(self).state,
            r is Ok ==> final(self).evidence@ == old(self).evidence@,
            r is Ok ==> spec_tally_extended(old(self).tally@, final(self).tally@, vote),
            r is Ok ==> forall|h: Seq<u8>|
                h != vote.block_hash@ ==> #[trigger] spec_votes_for(final(self).tally@, h)
                    == spec_votes_for(old(self).tally@, h),
            r is Ok ==> forall|id: Seq<char>|
                id != vote.validator_id@ ==> #[trigger] spec_voted(final(self).tally@, id)
                    == spec_voted(old(self).tally@, id),
            r is Ok ==> final(self).state.votes_received == old(self).state.votes_received + 1
                && spec_voted(final(self).tally@, vote.validator_id@) && spec_votes_for(
                final(self).tally@,
                vote.block_hash@,
            ) == spec_votes_for(old(self).tally@, vote.block_hash@) + 1,
            r is Ok && !(spec_votes_for(old(self).tally@, vote.block_hash@) + 1
                >= spec_quorum_threshold(old(self).committee@.len()) && vote.block_hash@
                != crate::vote::spec_nil_hash()) ==> final(self).state.step == old(self).state.step
                && final(self).state.winner_hash == old(self).state.winner_hash
                && final(out_events)@ == old(out_events)@,
            r is Ok && spec_votes_for(old(self).tally@, vote.block_hash@) + 1
                >= spec_quorum_threshold(old(self).committee@.len()) && vote.block_hash@
                != crate::vote::spec_nil_hash() ==> spec_commit_outcome(
                *old(self),
                *final(self),
                vote,
                old(out_events)@,
                final(out_events)@,
            ),
    {
        if vote.height != self.state.height {
            return Err(
                ConsensusError::WrongHeight { expected: self.state.height, got: vote.height },
            );
        }
        if vote.round != self.state.round {
            return Err(ConsensusError::WrongRound { expected: self.state.round, got: vote.round });
        }
        let phase_ok = match self.state.step {
            RoundStep::ProposeWindow | RoundStep::Voting => true,
            _ => false,
        };
        if !phase_ok {
            return Err(
                ConsensusError::InvalidVote(String::from_str("vote outside the voting phase")),
            );
        }
        if !self.committee_contains(&vote.validator_id) {
            return Err(ConsensusError::NotInCommittee(vote.validator_id.clone()));
        }
        let mut hash_known = false;
        let mut i: usize = 0;
        while i < self.proposals.len()
            invariant
                i <= self.proposals@.len(),
                hash_known ==> spec_has_proposal(self.proposals@, vote.block_hash@),
                !hash_known ==> forall|j: int|
                    0 <= j < i ==> #[trigger] self.proposals@[j].block_hash@ != vote.block_hash@,
            decreases self.proposals@.len() - i,
        {
            if crate::hexstr::bytes_eq(&self.proposals[i].block_hash, &vote.block_hash) {
                hash_known = true;
                break;
            }
            i = i + 1;
        }
        let is_nil = crate::hexstr::bytes_eq(&vote.block_hash, &crate::vote::nil_hash());
        if !hash_known && !is_nil {
            return Err(
                ConsensusError::InvalidVote(
                    String::from_str("vote for a proposal that was never received"),
                ),
            );
        }
        match self.find_vote(&vote.validator_id) {
            Some((e, i)) => {
                proof {
                    assert(spec_vote_admissible(*old(self), vote));
                    assert(spec_voted(old(self).tally@, vote.validator_id@));
                }
                if crate::hexstr::bytes_eq(&self.tally[e].votes[i].block_hash, &vote.block_hash) {
                    proof {
                        assert(!spec_voted_other(
                            old(self).tally@,
                            vote.validator_id@,
                            vote.block_hash@,
                        )) by {
                            if spec_voted_other(
                                old(self).tally@,
                                vote.validator_id@,
                                vote.block_hash@,
                            ) {
                                let (e2, i2) = choose|e2: int, i2: int|
                                    0 <= e2 < old(self).tally@.len() && 0 <= i2
                                        < old(self).tally@[e2].votes@.len()
                                        && #[trigger] old(self).tally@[e2].votes@[i2].validator_id@
                                        == vote.validator_id@
                                        && old(self).tally@[e2].votes@[i2].block_hash@
                                        != vote.block_hash@;
                                if e2 != e as int || i2 != i as int {
                                    assert(old(self).tally@[e2].votes@[i2].validator_id@
                                        != old(self).tally@[e as int].votes@[i as int].validator_id@);
                                }
                                assert(false);
                            }
                        }
                    }
                    return Err(ConsensusError::DuplicateVote(vote.validator_id.clone()));
                }
                proof {
                    assert(old(self).tally@[e as int].votes@[i as int].validator_id@
                        == vote.validator_id@ && old(self).tally@[e as int].votes@[i as int].block_hash@
                        != vote.block_hash@);
                    assert(spec_voted_other(old(self).tally@, vote.validator_id@, vote.block_hash@));
                }
                let earlier = copy_ranked_vote(&self.tally[e].votes[i]);
                let validator_id = vote.validator_id.clone();
                let ghost evs0 = out_events@;
                let ghost evid0 = self.evidence@;
                out_events.push(
                    ConsensusEvent::EquivocationDetected {
                        validator_id: validator_id.clone(),
                        evidence: (copy_ranked_vote(&earlier), copy_ranked_vote(&vote)),
                    },
                );
                self.evidence.push((earlier, vote));
                proof {
                    assert(spec_voted(old(self).tally@, validator_id@));
                    assert(out_events@.drop_last() =~= evs0);
                    assert(self.evidence@.drop_last() =~= evid0);
                    assert(crate::vote::spec_ranked_vote_eq(
                        self.evidence@.last().0,
                        old(self).tally@[e as int].votes@[i as int],
                    ));
                }
                return Err(ConsensusError::Equivocation { validator_id });
            },
            None => {
                proof {
                    assert(!spec_voted(old(self).tally@, vote.validator_id@));
                    assert(!spec_voted_other(old(self).tally@, vote.validator_id@, vote.block_hash@))
                        by {
                        if spec_voted_other(
                            old(self).tally@,
                            vote.validator_id@,
                            vote.block_hash@,
                        ) {
                            let (e2, i2) = choose|e2: int, i2: int|
                                0 <= e2 < old(self).tally@.len() && 0 <= i2
                                    < old(self).tally@[e2].votes@.len()
                                    && #[trigger] old(self).tally@[e2].votes@[i2].validator_id@
                                    == vote.validator_id@
                                    && old(self).tally@[e2].votes@[i2].block_hash@
                                    != vote.block_hash@;
                            assert(spec_voted(old(self).tally@, vote.validator_id@));
                        }
                    }
                }
            },
        }
        // Record the vote.
        let ghost tally0 = self.tally@;
        let ghost vid = vote.validator_id@;
        let ghost vhash = vote.block_hash@;
        let entry_count: usize;
        let entry_idx: usize;
        match self.find_entry(&vote.block_hash) {
            Some(e) => {
                entry_idx = e;
                let ghost entry0 = self.tally@[e as int];
                let slot = &mut self.tally[e];
                slot.votes.push(vote);
                entry_count = self.tally[e].votes.len();
                proof {
                    lemma_votes_for_update(tally0, self.tally@, e as int, vhash);
                    assert(spec_voted(self.tally@, vid)) by {
                        assert(self.tally@[e as int].votes@.last().validator_id@ == vid);
                    }
                    lemma_tally_wf_push(
                        tally0,
                        self.tally@,
                        e as int,
                        self.committee@,
                        self.state.height,
                        self.state.round,
                    );
                    assert(spec_tally_has_hash(tally0, vhash));
                    assert(spec_tally_extended(tally0, self.tally@, vote)) by {
                        assert(0 <= e as int && (e as int) < tally0.len() && tally0[e as int].block_hash@ == vhash
                            && self.tally@.len() == tally0.len() && (forall|k: int|
                            0 <= k < tally0.len() && k != e as int ==> #[trigger] self.tally@[k]
                                == tally0[k]) && self.tally@[e as int].block_hash@
                            == tally0[e as int].block_hash@ && self.tally@[e as int].votes@
                            == tally0[e as int].votes@.push(vote));
                    }
                    lemma_voted_frame_push(tally0, self.tally@, e as int, vote);
                    assert forall|h: Seq<u8>| h != vhash implies #[trigger] spec_votes_for(
                        self.tally@,
                        h,
                    ) == spec_votes_for(tally0, h) by {
                        assert forall|k: int|
                            0 <= k < tally0.len() implies #[trigger] tally0[k].block_hash@
                            == self.tally@[k].block_hash@ by {
                            if k != e as int {
                                assert(self.tally@[k] == tally0[k]);
                            }
                        }
                        assert forall|k: int|
                            0 <= k < tally0.len() && tally0[k].block_hash@
                                == h implies #[trigger] tally0[k].votes@.len()
                            == self.tally@[k].votes@.len() by {
                            assert(k != e as int);
                            assert(self.tally@[k] == tally0[k]);
                        }
                        lemma_votes_for_congruence(tally0, self.tally@, h);
                    }
                }
            },
            None => {
                let entry = VoteEntry { block_hash: copy_bytes(&vote.block_hash), votes: Vec::new() };
                self.tally.push(entry);
                let last = self.tally.len() - 1;
                entry_idx = last;
                let slot = &mut self.tally[last];
                slot.votes.push(vote);
                entry_count = self.tally[last].votes.len();
                proof {
                    lemma_votes_for_new(tally0, self.tally@, vhash);
                    assert(spec_voted(self.tally@, vid)) by {
                        assert(self.tally@.last().votes@[0].validator_id@ == vid);
                    }
                    lemma_tally_wf_new(
                        tally0,
                        self.tally@,
                        self.committee@,
                        self.state.height,
                        self.state.round,
                    );
                    assert(!spec_tally_has_hash(tally0, vhash));
                    assert(self.tally@.last().votes@ =~= seq![vote]);
                    assert(spec_tally_extended(tally0, self.tally@, vote));
                    lemma_voted_frame_new(tally0, self.tally@, vote);
                    assert forall|h: Seq<u8>| h != vhash implies #[trigger] spec_votes_for(
                        self.tally@,
                        h,
                    ) == spec_votes_for(tally0, h) by {
                        assert(self.tally@.last().block_hash@ == vhash);
                        assert(self.tally@.drop_last() =~= tally0);
                    }
                }
            },
        }
        self.state.votes_received = self.state.votes_received + 1;
        let quorum = self.quorum();
        proof {
            lemma_votes_for_found(self.tally@, vhash, entry_idx as int);
            assert(entry_count == spec_votes_for(self.tally@, vhash));
        }
        if entry_count >= quorum && !is_nil {
            // Quorum reached: commit.
            let commit_signatures = self.collect_signatures(entry_idx);
            proof {
                let votes = self.tally@[entry_idx as int].votes@;
                assert forall|i: int, j: int|
                    0 <= i < j < commit_signatures@.len() implies (#[trigger] commit_signatures@[i]).validator_id@
                    != (#[trigger] commit_signatures@[j]).validator_id@ by {
                    assert(votes[i].validator_id@ != votes[j].validator_id@);
                }
                assert forall|i: int|
                    0 <= i < commit_signatures@.len() implies spec_in_committee(
                    self.committee@,
                    (#[trigger] commit_signatures@[i]).validator_id@,
                ) by {
                    assert(spec_in_committee(self.committee@, votes[i].validator_id@));
                }
                assert(self.tally@[entry_idx as int].block_hash@ == vhash);
                assert(spec_sigs_match_votes(
                    commit_signatures@,
                    self.tally@[entry_idx as int].votes@,
                ));
                assert(exists|e2: int|
                    0 <= e2 < self.tally@.len() && #[trigger] self.tally@[e2].block_hash@ == vhash
                        && spec_sigs_match_votes(commit_signatures@, self.tally@[e2].votes@));
                assert(commit_signatures@.len() == spec_votes_for(tally0, vhash) + 1);
                assert(commit_signatures@.len() >= spec_quorum_threshold(self.committee@.len()));
            }
            let hash_copy = copy_bytes(&self.tally[entry_idx].block_hash);
            self.state.step = RoundStep::Committed;
            self.state.winner_hash = Some(copy_bytes(&hash_copy));
            let ghost evs0 = out_events@;
            out_events.push(
                ConsensusEvent::BlockCommitted {
                    height: self.state.height,
                    block_hash: hash_copy,
                    commit_signatures,
                },
            );
            proof {
                assert(out_events@.drop_last() =~= evs0);
                assert(self.state.step is Committed);
                assert(self.state.winner_hash matches Some(w) && w@ == vhash);
                assert(out_events@.len() == evs0.len() + 1);
                assert(vhash == vote.block_hash@);
                assert(out_events@.last() is BlockCommitted);
                let ghost ev_height = out_events@.last()->BlockCommitted_height;
                let ghost ev_hash = out_events@.last()->BlockCommitted_block_hash;
                let ghost ev_sigs = out_events@.last()->BlockCommitted_commit_signatures;
                assert(ev_height == old(self).state.height);
                assert(ev_hash@ == vote.block_hash@);
                assert(ev_sigs@.len() == spec_votes_for(old(self).tally@, vote.block_hash@) + 1);
                assert(ev_sigs@.len() >= spec_quorum_threshold(old(self).committee@.len()));
                assert(0 <= entry_idx as int && (entry_idx as int) < self.tally@.len());
                assert(self.tally@[entry_idx as int].block_hash@ == vote.block_hash@);
                assert(spec_sigs_match_votes(ev_sigs@, self.tally@[entry_idx as int].votes@));
                assert(exists|e2: int|
                    0 <= e2 < self.tally@.len() && #[trigger] self.tally@[e2].block_hash@
                        == vote.block_hash@ && spec_sigs_match_votes(
                        ev_sigs@,
                        self.tally@[e2].votes@,
                    ));
                assert(forall|i: int, j: int|
                    0 <= i < j < ev_sigs@.len() ==> (#[trigger] ev_sigs@[i]).validator_id@
                        != (#[trigger] ev_sigs@[j]).validator_id@);
                assert(forall|i: int|
                    0 <= i < ev_sigs@.len() ==> spec_in_committee(
                        old(self).committee@,
                        (#[trigger] ev_sigs@[i]).validator_id@,
                    ));
                assert(spec_commit_outcome(*old(self), *self, vote, evs0, out_events@));
            }
            return Ok(());
        }
        Ok(())
    }
}

impl ConsensusEngine {
    /// The commit signatures of one tally entry: one per vote, in vote
    /// order.
    fn collect_signatures(&self, e: usize) -> (r: Vec<CommitSignatureMsg>)
        requires
            e < self.tally@.len(),
        ensures
            spec_sigs_match_votes(r@, self.tally@[e as int].votes@),
    {
        let mut out: Vec<CommitSignatureMsg> = Vec::new();
        let mut i: usize = 0;
        while i < self.tally[e].votes.len()
            invariant
                e < self.tally@.len(),
                i <= self.tally@[e as int].votes@.len(),
                out@.len() == i,
                forall|j: int|
                    0 <= j < i ==> (#[trigger] out@[j]).validator_id@ == self.tally@[e as int].votes@[j].validator_id@
                        && out@[j].signature@ == self.tally@[e as int].votes@[j].signature@,
            decreases self.tally@[e as int].votes@.len() - i,
        {
            let v = &self.tally[e].votes[i];
            out.push(
                CommitSignatureMsg {
                    validator_id: v.validator_id.clone(),
                    signature: copy_bytes(&v.signature),
                },
            );
            i = i + 1;
        }
        out
    }
}

/// Copy a ranked vote field by field.
pub fn copy_ranked_vote(v: &RankedVote) -> (r: RankedVote)
    ensures
        crate::vote::spec_ranked_vote_eq(r, *v),
{
    RankedVote {
        height: v.height,
        round: v.round,
        block_hash: copy_bytes(&v.block_hash),
        efficiency_score: v.efficiency_score,
        validator_id: v.validator_id.clone(),
        signature: copy_bytes(&v.signature),
    }
}

/// Copy a byte string.
pub fn copy_bytes(v: &Vec<u8>) -> (r: Vec<u8>)
    ensures
        r@ == v@,
{
    crate::codec::copy_bytes(v)
}

/// Pushing one vote into entry `e` raises that hash's count by one and
/// leaves every other hash's count unchanged.
proof fn lemma_votes_for_update(before: Seq<VoteEntry>, after: Seq<VoteEntry>, e: int, hash: Seq<u8>)
    requires
        0 <= e < before.len(),
        after.len() == before.len(),
        forall|k: int| 0 <= k < before.len() && k != e ==> #[trigger] after[k] == before[k],
        after[e].block_hash@ == before[e].block_hash@,
        before[e].block_hash@ == hash,
        after[e].votes@.len() == before[e].votes@.len() + 1,
        forall|k1: int, k2: int|
            0 <= k1 < k2 < before.len() ==> #[trigger] before[k1].block_hash@
                != #[trigger] before[k2].block_hash@,
    ensures
        spec_votes_for(after, hash) == spec_votes_for(before, hash) + 1,
    decreases before.len(),
{
    if e == before.len() - 1 {
        lemma_votes_for_absent(before.drop_last(), hash);
        lemma_votes_for_absent(after.drop_last(), hash);
        assert forall|k: int| 0 <= k < after.drop_last().len() implies #[trigger] after.drop_last()[k].block_hash@
            != hash by {
            assert(after.drop_last()[k] == before[k]);
        }
    } else {
        assert(after.last() == before.last());
        assert(before.last().block_hash@ != hash);
        assert(after.drop_last()[e] == after[e]);
        assert forall|k: int|
            0 <= k < before.drop_last().len() && k != e implies #[trigger] after.drop_last()[k]
            == before.drop_last()[k] by {
            assert(after.drop_last()[k] == after[k]);
            assert(before.drop_last()[k] == before[k]);
        }
        assert forall|k1: int, k2: int|
            0 <= k1 < k2 < before.drop_last().len() implies #[trigger] before.drop_last()[k1].block_hash@
            != #[trigger] before.drop_last()[k2].block_hash@ by {
            assert(before.drop_last()[k1] == before[k1]);
            assert(before.drop_last()[k2] == before[k2]);
        }
        lemma_votes_for_update(before.drop_last(), after.drop_last(), e, hash);
    }
}

/// The count of a hash present at entry `e` is that entry's size.
proof fn lemma_votes_for_found(t: Seq<VoteEntry>, hash: Seq<u8>, e: int)
    requires
        0 <= e < t.len(),
        t[e].block_hash@ == hash,
        forall|k1: int, k2: int|
            0 <= k1 < k2 < t.len() ==> #[trigger] t[k1].block_hash@ != #[trigger] t[k2].block_hash@,
    ensures
        spec_votes_for(t, hash) == t[e].votes@.len(),
    decreases t.len(),
{
    if e == t.len() - 1 {
    } else {
        assert(t.last().block_hash@ != hash);
        assert forall|k1: int, k2: int|
            0 <= k1 < k2 < t.drop_last().len() implies #[trigger] t.drop_last()[k1].block_hash@
            != #[trigger] t.drop_last()[k2].block_hash@ by {
            assert(t.drop_last()[k1] == t[k1]);
            assert(t.drop_last()[k2] == t[k2]);
        }
        assert(t.drop_last()[e] == t[e]);
        lemma_votes_for_found(t.drop_last(), hash, e);
    }
}

/// A hash in no entry has zero votes.
proof fn lemma_votes_for_absent(t: Seq<VoteEntry>, hash: Seq<u8>)
    requires
        forall|k: int| 0 <= k < t.len() ==> #[trigger] t[k].block_hash@ != hash,
    ensures
        spec_votes_for(t, hash) == 0,
    decreases t.len(),
{
    if t.len() > 0 {
        lemma_votes_for_absent(t.drop_last(), hash);
    }
}

/// Appending a fresh one-vote entry gives its hash one vote.
proof fn lemma_votes_for_new(before: Seq<VoteEntry>, after: Seq<VoteEntry>, hash: Seq<u8>)
    requires
        after.len() == before.len() + 1,
        forall|k: int| 0 <= k < before.len() ==> #[trigger] after[k] == before[k],
        after.last().block_hash@ == hash,
        after.last().votes@.len() == 1,
        forall|k: int| 0 <= k < before.len() ==> #[trigger] before[k].block_hash@ != hash,
    ensures
        spec_votes_for(after, hash) == 1,
        spec_votes_for(before, hash) == 0,
{
    assert(after.drop_last() =~= before);
    lemma_votes_for_absent(before, hash);
}

/// A hash's count depends only on the entries' hashes and vote counts.
proof fn lemma_votes_for_congruence(a: Seq<VoteEntry>, b: Seq<VoteEntry>, hash: Seq<u8>)
    requires
        a.len() == b.len(),
        forall|k: int| 0 <= k < a.len() ==> #[trigger] a[k].block_hash@ == b[k].block_hash@,
        forall|k: int|
            0 <= k < a.len() && a[k].block_hash@ == hash ==> #[trigger] a[k].votes@.len()
                == b[k].votes@.len(),
    ensures
        spec_votes_for(a, hash) == spec_votes_for(b, hash),
    decreases a.len(),
{
    if a.len() > 0 {
        assert forall|k: int|
            0 <= k < a.drop_last().len() implies #[trigger] a.drop_last()[k].block_hash@
            == b.drop_last()[k].block_hash@ by {
            assert(a.drop_last()[k] == a[k]);
            assert(b.drop_last()[k] == b[k]);
        }
        assert forall|k: int|
            0 <= k < a.drop_last().len() && a.drop_last()[k].block_hash@
                == hash implies #[trigger] a.drop_last()[k].votes@.len()
            == b.drop_last()[k].votes@.len() by {
            assert(a.drop_last()[k] == a[k]);
            assert(b.drop_last()[k] == b[k]);
        }
        lemma_votes_for_congruence(a.drop_last(), b.drop_last(), hash);
        assert(a.last() == a[a.len() - 1]);
        assert(b.last() == b[a.len() - 1]);
    }
}

/// Appending one vote to entry `e` leaves every other validator's
/// voted-status unchanged.
proof fn lemma_voted_frame_push(
    before: Seq<VoteEntry>,
    after: Seq<VoteEntry>,
    e: int,
    vote: RankedVote,
)
    requires
        0 <= e < before.len(),
        after.len() == before.len(),
        forall|k: int| 0 <= k < before.len() && k != e ==> #[trigger] after[k] == before[k],
        after[e].votes@ == before[e].votes@.push(vote),
    ensures
        forall|id: Seq<char>|
            id != vote.validator_id@ ==> #[trigger] spec_voted(after, id) == spec_voted(before, id),
{
    assert forall|id: Seq<char>| id != vote.validator_id@ implies #[trigger] spec_voted(after, id)
        == spec_voted(before, id) by {
        if spec_voted(before, id) {
            let (e2, i2) = choose|e2: int, i2: int|
                0 <= e2 < before.len() && 0 <= i2 < before[e2].votes@.len()
                    && #[trigger] before[e2].votes@[i2].validator_id@ == id;
            if e2 == e {
                assert(after[e2].votes@[i2] == before[e2].votes@[i2]);
            } else {
                assert(after[e2] == before[e2]);
            }
            assert(after[e2].votes@[i2].validator_id@ == id);
            assert(spec_voted(after, id));
        }
        if spec_voted(after, id) {
            let (e2, i2) = choose|e2: int, i2: int|
                0 <= e2 < after.len() && 0 <= i2 < after[e2].votes@.len()
                    && #[trigger] after[e2].votes@[i2].validator_id@ == id;
            if e2 == e {
                if i2 < before[e2].votes@.len() {
                    assert(before[e2].votes@[i2] == after[e2].votes@[i2]);
                } else {
                    assert(after[e2].votes@[i2] == vote);
                    assert(false);
                }
            } else {
                assert(after[e2] == before[e2]);
            }
            assert(spec_voted(before, id));
        }
    }
}

/// Appending a fresh entry holding one vote leaves every other
/// validator's voted-status unchanged.
proof fn lemma_voted_frame_new(before: Seq<VoteEntry>, after: Seq<VoteEntry>, vote: RankedVote)
    requires
        after.len() == before.len() + 1,
        forall|k: int| 0 <= k < before.len() ==> #[trigger] after[k] == before[k],
        after.last().votes@ == seq![vote],
    ensures
        forall|id: Seq<char>|
            id != vote.validator_id@ ==> #[trigger] spec_voted(after, id) == spec_voted(before, id),
{
    assert forall|id: Seq<char>| id != vote.validator_id@ implies #[trigger] spec_voted(after, id)
        == spec_voted(before, id) by {
        if spec_voted(before, id) {
            let (e2, i2) = choose|e2: int, i2: int|
                0 <= e2 < before.len() && 0 <= i2 < before[e2].votes@.len()
                    && #[trigger] before[e2].votes@[i2].validator_id@ == id;
            assert(after[e2] == before[e2]);
            assert(after[e2].votes@[i2].validator_id@ == id);
            assert(spec_voted(after, id));
        }
        if spec_voted(after, id) {
            let (e2, i2) = choose|e2: int, i2: int|
                0 <= e2 < after.len() && 0 <= i2 < after[e2].votes@.len()
                    && #[trigger] after[e2].votes@[i2].validator_id@ == id;
            if e2 == after.len() - 1 {
                assert(after[e2].votes@ == seq![vote]);
                assert(after[e2].votes@[i2] == vote);
                assert(false);
            } else {
                assert(after[e2] == before[e2]);
            }
            assert(spec_voted(before, id));
        }
    }
}

/// The tally invariant is preserved by pushing an acceptable vote into
/// its entry.
proof fn lemma_tally_wf_push(
    before: Seq<VoteEntry>,
    after: Seq<VoteEntry>,
    e: int,
    c: Seq<ValidatorInfo>,
    height: u64,
    round: u64,
)
    requires
        spec_tally_wf(before, c, height, round),
        0 <= e < before.len(),
        after.len() == before.len(),
        forall|k: int| 0 <= k < before.len() && k != e ==> #[trigger] after[k] == before[k],
        after[e].block_hash@ == before[e].block_hash@,
        after[e].votes@.len() == before[e].votes@.len() + 1,
        forall|i: int| 0 <= i < before[e].votes@.len() ==> #[trigger] after[e].votes@[i] == before[e].votes@[i],
        after[e].votes@.last().block_hash@ == after[e].block_hash@,
        after[e].votes@.last().height == height,
        after[e].votes@.last().round == round,
        spec_ranked_vote_wf(&after[e].votes@.last()),
        spec_in_committee(c, after[e].votes@.last().validator_id@),
        !spec_voted(before, after[e].votes@.last().validator_id@),
    ensures
        spec_tally_wf(after, c, height, round),
{
    let newvid = after[e].votes@.last().validator_id@;
    assert forall|k: int| 0 <= k < after.len() implies (#[trigger] after[k].block_hash@).len()
        == 32 by {
        if k != e {
            assert(after[k] == before[k]);
        }
    }
    assert forall|k1: int, k2: int| 0 <= k1 < k2 < after.len() implies #[trigger] after[k1].block_hash@
        != #[trigger] after[k2].block_hash@ by {
        if k1 != e {
            assert(after[k1] == before[k1]);
        }
        if k2 != e {
            assert(after[k2] == before[k2]);
        }
    }
    assert forall|k: int, i: int|
        0 <= k < after.len() && 0 <= i < after[k].votes@.len() implies (#[trigger] after[k].votes@[i]).block_hash@
        == after[k].block_hash@ && after[k].votes@[i].height == height && after[k].votes@[i].round
        == round && spec_ranked_vote_wf(&after[k].votes@[i]) && spec_in_committee(
        c,
        after[k].votes@[i].validator_id@,
    ) by {
        if k != e {
            assert(after[k] == before[k]);
        } else if i < before[e].votes@.len() {
            assert(after[e].votes@[i] == before[e].votes@[i]);
        } else {
            assert(after[e].votes@[i] == after[e].votes@.last());
        }
    }
    assert forall|e1: int, i1: int, e2: int, i2: int|
        0 <= e1 < after.len() && 0 <= i1 < after[e1].votes@.len() && 0 <= e2 < after.len() && 0
            <= i2 < after[e2].votes@.len() && (e1 != e2 || i1 != i2) implies #[trigger] after[e1].votes@[i1].validator_id@
        != #[trigger] after[e2].votes@[i2].validator_id@ by {
        let old1 = e1 != e || i1 < before[e].votes@.len();
        let old2 = e2 != e || i2 < before[e].votes@.len();
        if old1 && old2 {
            if e1 != e {
                assert(after[e1] == before[e1]);
            } else {
                assert(after[e1].votes@[i1] == before[e1].votes@[i1]);
            }
            if e2 != e {
                assert(after[e2] == before[e2]);
            } else {
                assert(after[e2].votes@[i2] == before[e2].votes@[i2]);
            }
        } else if old1 {
            assert(after[e2].votes@[i2].validator_id@ == newvid);
            if e1 != e {
                assert(after[e1] == before[e1]);
                assert(before[e1].votes@[i1].validator_id@ != newvid);
            } else {
                assert(after[e1].votes@[i1] == before[e1].votes@[i1]);
                assert(before[e1].votes@[i1].validator_id@ != newvid);
            }
        } else if old2 {
            assert(after[e1].votes@[i1].validator_id@ == newvid);
            if e2 != e {
                assert(after[e2] == before[e2]);
                assert(before[e2].votes@[i2].validator_id@ != newvid);
            } else {
                assert(after[e2].votes@[i2] == before[e2].votes@[i2]);
                assert(before[e2].votes@[i2].validator_id@ != newvid);
            }
        } else {
            assert(e1 == e && e2 == e);
            assert(i1 == after[e].votes@.len() - 1 && i2 == after[e].votes@.len() - 1);
            assert(false);
        }
    }
}

/// The tally invariant is preserved by appending a fresh entry with
/// one acceptable vote under a new hash.
proof fn lemma_tally_wf_new(
    before: Seq<VoteEntry>,
    after: Seq<VoteEntry>,
    c: Seq<ValidatorInfo>,
    height: u64,
    round: u64,
)
    requires
        spec_tally_wf(before, c, height, round),
        after.len() == before.len() + 1,
        forall|k: int| 0 <= k < before.len() ==> #[trigger] after[k] == before[k],
        after.last().block_hash@.len() == 32,
        forall|k: int| 0 <= k < before.len() ==> #[trigger] before[k].block_hash@ != after.last().block_hash@,
        after.last().votes@.len() == 1,
        after.last().votes@[0].block_hash@ == after.last().block_hash@,
        after.last().votes@[0].height == height,
        after.last().votes@[0].round == round,
        spec_ranked_vote_wf(&after.last().votes@[0]),
        spec_in_committee(c, after.last().votes@[0].validator_id@),
        !spec_voted(before, after.last().votes@[0].validator_id@),
    ensures
        spec_tally_wf(after, c, height, round),
{
    let le = after.len() - 1;
    let newvid = after[le].votes@[0].validator_id@;
    assert forall|k: int| 0 <= k < after.len() implies (#[trigger] after[k].block_hash@).len()
        == 32 by {
        if k < le {
            assert(after[k] == before[k]);
        }
    }
    assert forall|k1: int, k2: int| 0 <= k1 < k2 < after.len() implies #[trigger] after[k1].block_hash@
        != #[trigger] after[k2].block_hash@ by {
        if k2 < le {
            assert(after[k1] == before[k1]);
            assert(after[k2] == before[k2]);
        } else {
            assert(after[k1] == before[k1]);
        }
    }
    assert forall|k: int, i: int|
        0 <= k < after.len() && 0 <= i < after[k].votes@.len() implies (#[trigger] after[k].votes@[i]).block_hash@
        == after[k].block_hash@ && after[k].votes@[i].height == height && after[k].votes@[i].round
        == round && spec_ranked_vote_wf(&after[k].votes@[i]) && spec_in_committee(
        c,
        after[k].votes@[i].validator_id@,
    ) by {
        if k < le {
            assert(after[k] == before[k]);
        } else {
            assert(i == 0);
        }
    }
    assert forall|e1: int, i1: int, e2: int, i2: int|
        0 <= e1 < after.len() && 0 <= i1 < after[e1].votes@.len() && 0 <= e2 < after.len() && 0
            <= i2 < after[e2].votes@.len() && (e1 != e2 || i1 != i2) implies #[trigger] after[e1].votes@[i1].validator_id@
        != #[trigger] after[e2].votes@[i2].validator_id@ by {
        if e1 < le && e2 < le {
            assert(after[e1] == before[e1]);
            assert(after[e2] == before[e2]);
        } else if e1 < le {
            assert(after[e1] == before[e1]);
            assert(i2 == 0);
            assert(after[e2].votes@[i2].validator_id@ == newvid);
            assert(before[e1].votes@[i1].validator_id@ != newvid);
        } else if e2 < le {
            assert(after[e2] == before[e2]);
            assert(i1 == 0);
            assert(after[e1].votes@[i1].validator_id@ == newvid);
            assert(before[e2].votes@[i2].validator_id@ != newvid);
        } else {
            assert(i1 == 0 && i2 == 0);
            assert(false);
        }
    }
}

/// A tick before the running phase's deadline leaves the engine as it
/// was.
pub open spec fn spec_tick_idle(before: ConsensusEngine, after: ConsensusEngine) -> bool {
    &&& after.state == before.state
    &&& after.round_start == before.round_start
    &&& after.proposals@ == before.proposals@
    &&& after.tally@ == before.tally@
}

/// A tick at a phase deadline only moves the phase forward: the round,
/// its counters, its anchor and its gathered proposals and votes all
/// stay as they were.
pub open spec fn spec_tick_phase_only(before: ConsensusEngine, after: ConsensusEngine) -> bool {
    &&& after.state.round == before.state.round
    &&& after.state.proposals_received == before.state.proposals_received
    &&& after.state.votes_received == before.state.votes_received
    &&& after.state.winner_hash == before.state.winner_hash
    &&& after.round_start == before.round_start
    &&& after.proposals@ == before.proposals@
    &&& after.tally@ == before.tally@
}

impl ConsensusEngine {
    /// Deliver a clock tick.
    ///
    /// The proposal window closes `timeout_propose_window` seconds
    /// after the round started, voting `timeout_voting` seconds later,
    /// and finalization `timeout_finalize` seconds after that.  A round
    /// that reaches the end of finalization without a committed winner
    /// advances: the round number grows by one, the proposal window
    /// reopens, and the proposals and votes of the failed round are
    /// discarded.
    pub fn tick(&mut self, now: u64, out_events: &mut Vec<ConsensusEvent>)
        requires
            spec_engine_wf(old(self)),
            old(self).state.round < u64::MAX,
            old(self).round_start + old(self).config.timeout_propose_window_secs + old(self).config.timeout_voting_secs + old(self).config.timeout_finalize_secs <= u64::MAX,
        ensures
            spec_engine_wf(final(self)),
            final(self).state.height == old(self).state.height,
            final(self).state.round >= old(self).state.round,
            final(self).state.round == old(self).state.round || final(self).state.round == old(self).state.round + 1,
            final(self).committee@ == old(self).committee@,
            final(self).config == old(self).config,
            final(self).evidence@ == old(self).evidence@,
            final(self).state.reference_efficiency == old(self).state.reference_efficiency,
            old(self).state.step is ProposeWindow && now < old(self).round_start + old(self).config.timeout_propose_window_secs ==> spec_tick_idle(*old(self), *final(self)) && final(out_events)@ == old(out_events)@,
            old(self).state.step is ProposeWindow && now >= old(self).round_start + old(self).config.timeout_propose_window_secs ==> final(self).state.step is Voting && spec_tick_phase_only(*old(self), *final(self)) && final(out_events)@ == old(out_events)@,
            old(self).state.step is Voting && now < old(self).round_start + old(self).config.timeout_propose_window_secs + old(self).config.timeout_voting_secs ==> spec_tick_idle(*old(self), *final(self)) && final(out_events)@ == old(out_events)@,
            old(self).state.step is Voting && now >= old(self).round_start + old(self).config.timeout_propose_window_secs + old(self).config.timeout_voting_secs ==> final(self).state.step is Finalize && spec_tick_phase_only(*old(self), *final(self)) && final(out_events)@ == old(out_events)@,
            old(self).state.step is Finalize && now < old(self).round_start + old(self).config.timeout_propose_window_secs + old(self).config.timeout_voting_secs + old(self).config.timeout_finalize_secs ==> spec_tick_idle(*old(self), *final(self)) && final(out_events)@ == old(out_events)@,
            old(self).state.step is Finalize && now >= old(self).round_start + old(self).config.timeout_propose_window_secs + old(self).config.timeout_voting_secs + old(self).config.timeout_finalize_secs ==> final(self).state.step is ProposeWindow && final(self).state.round == old(self).state.round + 1 && final(self).state.proposals_received == 0 && final(self).state.votes_received == 0 && final(self).state.winner_hash is None && final(self).round_start == now && final(self).proposals@.len() == 0 && final(self).tally@.len() == 0 && final(out_events)@.len()
                == old(out_events)@.len() + 1 && final(out_events)@.drop_last() == old(out_events)@ && (final(out_events)@.last()
                matches ConsensusEvent::RoundAdvanced { height, round, reason } && height == old(self).state.height && round == old(self).state.round + 1 && reason == (
            AdvanceReason::Timeout { step: RoundStep::Finalize })),
            old(self).state.step is Committed ==> spec_tick_idle(*old(self), *final(self)) && final(out_events)@ == old(out_events)@,
    {
        let deadline_propose = self.round_start + self.config.timeout_propose_window_secs;
        let deadline_voting = deadline_propose + self.config.timeout_voting_secs;
        let deadline_finalize = deadline_voting + self.config.timeout_finalize_secs;
        match self.state.step {
            RoundStep::ProposeWindow => {
                if now >= deadline_propose {
                    self.state.step = RoundStep::Voting;
                }
            },
            RoundStep::Voting => {
                if now >= deadline_voting {
                    self.state.step = RoundStep::Finalize;
                }
            },
            RoundStep::Finalize => {
                if now >= deadline_finalize {
                    let height = self.state.height;
                    self.state.advance_round();
                    self.round_start = now;
                    self.proposals = Vec::new();
                    self.tally = Vec::new();
                    out_events.push(
                        ConsensusEvent::RoundAdvanced {
                            height,
                            round: self.state.round,
                            reason: AdvanceReason::Timeout { step: RoundStep::Finalize },
                        },
                    );
                }
            },
            RoundStep::Committed => {},
        }
    }

    /// Begin the next height after a commit: height + 1, round 0, a
    /// fresh proposal window, proposals and votes cleared.  Collected
    /// equivocation evidence is kept.
    pub fn begin_next_height(&mut self, now: u64, out_events: &mut Vec<ConsensusEvent>)
        requires
            spec_engine_wf(old(self)),
            old(self).state.step is Committed,
            old(self).state.height < u64::MAX,
        ensures
            spec_engine_wf(final(self)),
            final(self).state.height == old(self).state.height + 1,
            final(self).state.round == 0,
            final(self).state.step is ProposeWindow,
            final(self).round_start == now,
            final(self).proposals@.len() == 0,
            final(self).tally@.len() == 0,
            final(self).committee@ == old(self).committee@,
            final(self).evidence@ == old(self).evidence@,
            final(out_events)@ == old(out_events)@,
    {
        let next = self.state.height + 1;
        self.state.new_height(next);
        self.round_start = now;
        self.proposals = Vec::new();
        self.tally = Vec::new();
    }
}

/// Whether the id occurs among the first `upto` signatures.
pub open spec fn spec_sig_seen(sigs: Seq<CommitSignatureMsg>, id: Seq<char>, upto: int) -> bool {
    exists|j: int| 0 <= j < upto && #[trigger] sigs[j].validator_id@ == id
}

/// The number of distinct committee members among the first `upto`
/// signatures.
pub open spec fn spec_quorum_count(
    sigs: Seq<CommitSignatureMsg>,
    c: Seq<ValidatorInfo>,
    upto: int,
) -> int
    decreases upto,
{
    if upto <= 0 {
        0
    } else {
        spec_quorum_count(sigs, c, upto - 1) + (if spec_in_committee(c, sigs[upto - 1].validator_id@)
            && !spec_sig_seen(sigs, sigs[upto - 1].validator_id@, upto - 1) {
            1int
        } else {
            0int
        })
    }
}

/// Count the distinct committee members among a block's commit
/// signatures: a committed block is valid only when this count reaches
/// the quorum.
pub fn verify_quorum(sigs: &Vec<CommitSignatureMsg>, committee: &Vec<ValidatorInfo>) -> (r: usize)
    ensures
        r == spec_quorum_count(sigs@, committee@, sigs@.len() as int),
        r <= sigs@.len(),
{
    proof {
        lemma_quorum_count_bound(sigs@, committee@, sigs@.len() as int);
    }
    let mut count: usize = 0;
    let mut i: usize = 0;
    while i < sigs.len()
        invariant
            i <= sigs@.len(),
            count == spec_quorum_count(sigs@, committee@, i as int),
            count <= i,
        decreases sigs@.len() - i,
    {
        proof {
            lemma_quorum_count_bound(sigs@, committee@, i + 1);
        }
        let mut in_committee = false;
        let mut k: usize = 0;
        while k < committee.len()
            invariant
                k <= committee@.len(),
                i < sigs@.len(),
                in_committee == exists|j: int|
                    0 <= j < k && #[trigger] committee@[j].validator_id@
                        == sigs@[i as int].validator_id@,
            decreases committee@.len() - k,
        {
            if committee[k].validator_id.eq(&sigs[i].validator_id) {
                in_committee = true;
            }
            k = k + 1;
        }
        let mut seen = false;
        let mut j: usize = 0;
        while j < i
            invariant
                j <= i,
                i < sigs@.len(),
                seen == exists|j2: int|
                    0 <= j2 < j && #[trigger] sigs@[j2].validator_id@
                        == sigs@[i as int].validator_id@,
            decreases i - j,
        {
            if sigs[j].validator_id.eq(&sigs[i].validator_id) {
                seen = true;
            }
            j = j + 1;
        }
        proof {
            assert(in_committee == spec_in_committee(committee@, sigs@[i as int].validator_id@));
            assert(seen == spec_sig_seen(sigs@, sigs@[i as int].validator_id@, i as int));
        }
        proof {
            assert(spec_quorum_count(sigs@, committee@, i + 1) == spec_quorum_count(
                sigs@,
                committee@,
                i as int,
            ) + (if spec_in_committee(committee@, sigs@[i as int].validator_id@)
                && !spec_sig_seen(sigs@, sigs@[i as int].validator_id@, i as int) {
                1int
            } else {
                0int
            }));
            if !in_committee {
                assert(!spec_in_committee(committee@, sigs@[i as int].validator_id@));
            }
            if !seen {
                assert(!spec_sig_seen(sigs@, sigs@[i as int].validator_id@, i as int));
            }
        }
        if in_committee && !seen {
            count = count + 1;
        }
        i = i + 1;
    }
    count
}

/// The quorum count never exceeds the number of signatures.
proof fn lemma_quorum_count_bound(sigs: Seq<CommitSignatureMsg>, c: Seq<ValidatorInfo>, upto: int)
    ensures
        spec_quorum_count(sigs, c, upto) <= (if upto >= 0 {
            upto
        } else {
            0
        }),
        spec_quorum_count(sigs, c, upto) >= 0,
    decreases upto,
{
    if upto > 0 {
        lemma_quorum_count_bound(sigs, c, upto - 1);
    }
}

/// Signatures with pairwise-distinct ids, all from the committee,
/// count in full: the quorum count equals their number.
pub proof fn lemma_distinct_sigs_count_full(
    sigs: Seq<CommitSignatureMsg>,
    c: Seq<ValidatorInfo>,
    upto: int,
)
    requires
        0 <= upto <= sigs.len(),
        forall|i: int, j: int|
            0 <= i < j < sigs.len() ==> (#[trigger] sigs[i]).validator_id@
                != (#[trigger] sigs[j]).validator_id@,
        forall|i: int|
            0 <= i < sigs.len() ==> spec_in_committee(c, (#[trigger] sigs[i]).validator_id@),
    ensures
        spec_quorum_count(sigs, c, upto) == upto,
    decreases upto,
{
    if upto > 0 {
        lemma_distinct_sigs_count_full(sigs, c, upto - 1);
        assert(!spec_sig_seen(sigs, sigs[upto - 1].validator_id@, upto - 1));
    }
}

/// Every block the engine commits carries a quorum: the commit
/// signatures attached to a `BlockCommitted` event count at least
/// `floor(2n/3) + 1` distinct committee members.
pub proof fn lemma_committed_block_has_quorum(
    sigs: Seq<CommitSignatureMsg>,
    c: Seq<ValidatorInfo>,
)
    requires
        sigs.len() >= spec_quorum_threshold(c.len()),
        forall|i: int, j: int|
            0 <= i < j < sigs.len() ==> (#[trigger] sigs[i]).validator_id@
                != (#[trigger] sigs[j]).validator_id@,
        forall|i: int|
            0 <= i < sigs.len() ==> spec_in_committee(c, (#[trigger] sigs[i]).validator_id@),
    ensures
        spec_quorum_count(sigs, c, sigs.len() as int) >= spec_quorum_threshold(c.len()),
{
    lemma_distinct_sigs_count_full(sigs, c, sigs.len() as int);
}

} // verus!
