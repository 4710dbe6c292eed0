//! Block proposals and their validation.
//!
//! In the PoAI competition model every eligible builder submits a
//! proposal during the proposal window and validators vote for the best
//! one by efficiency, so validation re-derives the efficiency rather
//! than trusting the claim.

use vstd::prelude::*;
use vstd::string::*;
use vstd::utf8::*;
use crate::block::{Block, spec_block_wf, spec_enc_block};
use crate::consensus::ConsensusError;
use crate::crypto::{ed25519_sign_of, ed25519_verifies};

verus! {

/// Domain prefix bytes of proposals.
pub open spec fn spec_proposal_domain() -> Seq<u8> {
    encode_utf8("self-chain-proposal-v1"@)
}

/// A block proposal submitted by a builder.
///
/// Canonical encoding order: `height`, `round`, `proposer_id`, the
/// block, `signature`.
#[derive(Clone, Debug)]
pub struct BlockProposal {
    /// Block height.
    pub height: u64,
    /// Consensus round.
    pub round: u64,
    /// Validator id of the proposer.
    pub proposer_id: String,
    /// The proposed block.
    pub block: Block,
    /// Ed25519 signature of the proposer (64 bytes).
    pub signature: Vec<u8>,
}

/// Structural well-formedness of a proposal.
pub open spec fn spec_proposal_wf(p: &BlockProposal) -> bool {
    &&& is_ascii_chars(p.proposer_id@)
    &&& spec_block_wf(&p.block)
    &&& p.signature@.len() == 64
}

/// Canonical encoding of the signable part of a proposal: everything
/// but the signature.
pub open spec fn spec_enc_proposal_core(p: BlockProposal) -> Seq<u8> {
    crate::codec::spec_u64_le(p.height) + crate::codec::spec_u64_le(p.round)
        + crate::codec::spec_enc_str(p.proposer_id@) + spec_enc_block(p.block)
}

/// The message a proposer signs: the domain prefix, then the signable
/// part.
pub open spec fn spec_proposal_msg(p: BlockProposal) -> Seq<u8> {
    spec_proposal_domain() + spec_enc_proposal_core(p)
}

impl BlockProposal {
    /// A new, unsigned proposal.
    pub fn new(height: u64, round: u64, proposer_id: String, block: Block) -> (r: Self)
        ensures
            r.height == height,
            r.round == round,
            r.proposer_id@ == proposer_id@,
            r.block == block,
            r.signature@ == Seq::new(64, |i: int| 0u8),
    {
        BlockProposal {
            height,
            round,
            proposer_id,
            block,
            signature: crate::vote::zero_signature(),
        }
    }

    /// The efficiency score claimed in the block header.
    pub fn efficiency_score(&self) -> (r: u64)
        ensures
            r == self.block.header.efficiency_score,
    {
        self.block.header.efficiency_score
    }

    /// Number of transactions in the proposed block.
    pub fn tx_count(&self) -> (r: usize)
        ensures
            r == self.block.transactions@.len(),
    {
        self.block.transactions.len()
    }

    /// Sign this proposal with the given private key, filling in the
    /// signature field.
    pub fn sign(&mut self, private_key: &Vec<u8>)
        requires
            spec_proposal_wf(old(self)),
            private_key@.len() == 32,
        ensures
            final(self).height == old(self).height,
            final(self).round == old(self).round,
            final(self).proposer_id@ == old(self).proposer_id@,
            final(self).block == old(self).block,
            final(self).signature@ == ed25519_sign_of(
                private_key@,
                spec_proposal_msg(*old(self)),
            ),
            spec_proposal_wf(final(self)),
    {
        let mut msg = "self-chain-proposal-v1".as_bytes_vec();
        crate::codec::enc_u64(&mut msg, self.height);
        crate::codec::enc_u64(&mut msg, self.round);
        crate::codec::enc_str(&mut msg, &self.proposer_id);
        let block_bytes = crate::block::encode_block(&self.block);
        crate::codec::enc_raw(&mut msg, &block_bytes);
        proof {
            assert(msg@ =~= spec_proposal_msg(*self));
        }
        self.signature = crate::crypto::ed25519_sign(private_key, &msg);
    }

    /// Whether this proposal's signature verifies against the given
    /// proposer public key over the proposal domain.
    pub fn verify_signature(&self, public_key: &Vec<u8>) -> (r: bool)
        requires
            spec_proposal_wf(self),
            public_key@.len() == 32,
        ensures
            r == ed25519_verifies(public_key@, spec_proposal_msg(*self), self.signature@),
    {
        let mut msg = "self-chain-proposal-v1".as_bytes_vec();
        crate::codec::enc_u64(&mut msg, self.height);
        crate::codec::enc_u64(&mut msg, self.round);
        crate::codec::enc_str(&mut msg, &self.proposer_id);
        let block_bytes = crate::block::encode_block(&self.block);
        crate::codec::enc_raw(&mut msg, &block_bytes);
        proof {
            assert(msg@ =~= spec_proposal_msg(*self));
        }
        crate::crypto::ed25519_verify(public_key, &msg, &self.signature)
    }
}

/// A proposal that passed validation, with the re-derived efficiency.
#[derive(Clone, Debug)]
pub struct ValidatedProposal {
    /// The original proposal.
    pub proposal: BlockProposal,
    /// Efficiency re-derived by the validator.
    pub verified_efficiency: u64,
    /// Whether the proposal matches or beats the reference block.
    pub beats_reference: bool,
    /// Re-derived efficiency minus the reference efficiency.
    pub efficiency_delta: i64,
}

impl ValidatedProposal {
    /// Wrap a proposal with its re-derived efficiency and its standing
    /// against the reference.
    pub fn new(proposal: BlockProposal, verified_efficiency: u64, reference_efficiency: u64) -> (r:
        Self)
        requires
            verified_efficiency <= i64::MAX,
            reference_efficiency <= i64::MAX,
        ensures
            r.proposal == proposal,
            r.verified_efficiency == verified_efficiency,
            r.beats_reference == (verified_efficiency >= reference_efficiency),
            r.efficiency_delta == verified_efficiency - reference_efficiency,
    {
        ValidatedProposal {
            verified_efficiency,
            beats_reference: verified_efficiency >= reference_efficiency,
            efficiency_delta: (verified_efficiency as i64) - (reference_efficiency as i64),
            proposal,
        }
    }

    /// The proposer's validator id.
    pub fn proposer_id(&self) -> (r: &String)
        ensures
            r@ == self.proposal.proposer_id@,
    {
        &self.proposal.proposer_id
    }

    /// Whether the claimed efficiency matched the re-derived one.
    pub fn efficiency_matches_claim(&self) -> (r: bool)
        ensures
            r == (self.verified_efficiency == self.proposal.block.header.efficiency_score),
    {
        self.verified_efficiency == self.proposal.block.header.efficiency_score
    }
}

/// Validate a received proposal against the current round.
///
/// In order: the signature must verify against the proposer's public
/// key; the block's chain id must match; the proposal's height and
/// round must be the current ones; the efficiency claimed in the
/// header must equal the one re-derived locally.  A proposal below the
/// reference efficiency is still valid: it merely loses the vote.
pub fn validate_proposal(
    proposal: BlockProposal,
    proposer_public_key: &Vec<u8>,
    expected_chain_id: &String,
    current_height: u64,
    current_round: u64,
    verified_efficiency: u64,
    reference_efficiency: u64,
) -> (r: Result<ValidatedProposal, ConsensusError>)
    requires
        spec_proposal_wf(&proposal),
        proposer_public_key@.len() == 32,
        verified_efficiency <= i64::MAX,
        reference_efficiency <= i64::MAX,
    ensures
        !ed25519_verifies(
            proposer_public_key@,
            spec_proposal_msg(proposal),
            proposal.signature@,
        ) <==> r matches Err(ConsensusError::InvalidSignature(_)),
        r matches Err(ConsensusError::InvalidProposal(_)) ==> proposal.block.header.chain_id@
            != expected_chain_id@,
        r matches Err(ConsensusError::WrongHeight { expected, got }) ==> expected == current_height
            && got == proposal.height && proposal.height != current_height,
        r matches Err(ConsensusError::WrongRound { expected, got }) ==> expected == current_round
            && got == proposal.round && proposal.round != current_round,
        r matches Err(ConsensusError::EfficiencyMismatch { claimed, actual }) ==> claimed
            == proposal.block.header.efficiency_score && actual == verified_efficiency && claimed
            != actual,
        (ed25519_verifies(proposer_public_key@, spec_proposal_msg(proposal), proposal.signature@)
            && proposal.block.header.chain_id@ == expected_chain_id@ && proposal.height
            == current_height && proposal.round == current_round
            && proposal.block.header.efficiency_score == verified_efficiency) <==> r is Ok,
        r matches Ok(v) ==> v.proposal == proposal && v.verified_efficiency == verified_efficiency
            && v.beats_reference == (verified_efficiency >= reference_efficiency)
            && v.efficiency_delta == verified_efficiency - reference_efficiency,
{
    if !proposal.verify_signature(proposer_public_key) {
        return Err(
            ConsensusError::InvalidSignature(String::from_str("proposal signature rejected")),
        );
    }
    if !proposal.block.header.chain_id.eq(expected_chain_id) {
        return Err(ConsensusError::InvalidProposal(String::from_str("wrong chain id")));
    }
    if proposal.height != current_height {
        return Err(
            ConsensusError::WrongHeight { expected: current_height, got: proposal.height },
        );
    }
    if proposal.round != current_round {
        return Err(ConsensusError::WrongRound { expected: current_round, got: proposal.round });
    }
    if proposal.block.header.efficiency_score != verified_efficiency {
        return Err(
            ConsensusError::EfficiencyMismatch {
                claimed: proposal.block.header.efficiency_score,
                actual: verified_efficiency,
            },
        );
    }
    Ok(ValidatedProposal::new(proposal, verified_efficiency, reference_efficiency))
}

/// Canonical encoding of a whole proposal: the signable part, then the
/// signature verbatim.
pub open spec fn spec_enc_proposal(p: BlockProposal) -> Seq<u8> {
    spec_enc_proposal_core(p) + p.signature@
}

/// The canonical encoding of a whole proposal.
pub fn encode_proposal(p: &BlockProposal) -> (r: Vec<u8>)
    requires
        spec_proposal_wf(p),
    ensures
        r@ == spec_enc_proposal(*p),
{
    let mut out: Vec<u8> = Vec::new();
    crate::codec::enc_u64(&mut out, p.height);
    crate::codec::enc_u64(&mut out, p.round);
    crate::codec::enc_str(&mut out, &p.proposer_id);
    let block_bytes = crate::block::encode_block(&p.block);
    crate::codec::enc_raw(&mut out, &block_bytes);
    crate::codec::enc_raw(&mut out, &p.signature);
    proof {
        assert(out@ =~= spec_enc_proposal(*p));
    }
    out
}

/// Decode a whole buffer as one proposal.  Whatever it accepts is the
/// exact canonical encoding of the returned proposal.
pub fn decode_proposal(buf: &Vec<u8>) -> (r: Option<BlockProposal>)
    ensures
        r matches Some(p) ==> spec_proposal_wf(&p) && spec_enc_proposal(p) == buf@,
{
    let (height, p1) = match crate::codec::dec_u64(buf, 0) {
        Some(v) => v,
        None => {
            return None;
        },
    };
    let (round, p2) = match crate::codec::dec_u64(buf, p1) {
        Some(v) => v,
        None => {
            return None;
        },
    };
    let (proposer_id, p3) = match crate::codec::dec_str(buf, p2) {
        Some(v) => v,
        None => {
            return None;
        },
    };
    let (block, p4) = match crate::block::decode_block_at(buf, p3) {
        Some(v) => v,
        None => {
            return None;
        },
    };
    let (signature, p5) = match crate::codec::dec_raw(buf, p4, 64) {
        Some(v) => v,
        None => {
            return None;
        },
    };
    if p5 != buf.len() {
        return None;
    }
    let p = BlockProposal { height, round, proposer_id, block, signature };
    proof {
        assert(buf@ =~= buf@.subrange(0, p1 as int) + buf@.subrange(p1 as int, p2 as int)
            + buf@.subrange(p2 as int, p3 as int) + buf@.subrange(p3 as int, p4 as int)
            + buf@.subrange(p4 as int, p5 as int));
        assert(spec_enc_proposal(p) =~= buf@);
    }
    Some(p)
}

} // verus!
