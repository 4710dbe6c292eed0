//! Vote wire types: the Tendermint-style prevote/precommit pair and the
//! primary PoAI ranked vote.
//!
//! A ranked vote names the best proposal by efficiency rather than
//! answering yes or no to a single proposal.  Each vote kind signs under
//! its own domain prefix so signatures cannot be replayed across kinds.

use vstd::prelude::*;
use vstd::string::*;
use vstd::utf8::*;

verus! {

/// Domain prefix bytes of prevotes.
pub open spec fn spec_prevote_domain() -> Seq<u8> {
    encode_utf8("self-chain-vote-prevote-v1"@)
}

/// Domain prefix bytes of precommits.
pub open spec fn spec_precommit_domain() -> Seq<u8> {
    encode_utf8("self-chain-vote-precommit-v1"@)
}

/// Domain prefix bytes of ranked votes.
pub open spec fn spec_ranked_vote_domain() -> Seq<u8> {
    encode_utf8("self-chain-ranked-vote-v1"@)
}

/// Step of a Tendermint-style vote.
#[derive(Clone, Copy, Debug, PartialEq, Eq, Hash, Structural)]
pub enum VoteStep {
    /// First voting round.
    Prevote,
    /// Second voting round.
    Precommit,
}

/// The canonical byte of a vote step: 1 for prevote, 2 for precommit.
pub open spec fn spec_step_byte(s: VoteStep) -> u8 {
    match s {
        VoteStep::Prevote => 1,
        VoteStep::Precommit => 2,
    }
}

impl VoteStep {
    /// The canonical wire byte of this step.
    pub fn step_byte(&self) -> (r: u8)
        ensures
            r == spec_step_byte(*self),
    {
        match self {
            VoteStep::Prevote => 1,
            VoteStep::Precommit => 2,
        }
    }

    /// The domain separation prefix of this vote step.
    pub fn domain_prefix(&self) -> (r: Vec<u8>)
        ensures
            *self is Prevote ==> r@ == spec_prevote_domain(),
            *self is Precommit ==> r@ == spec_precommit_domain(),
    {
        match self {
            VoteStep::Prevote => "self-chain-vote-prevote-v1".as_bytes_vec(),
            VoteStep::Precommit => "self-chain-vote-precommit-v1".as_bytes_vec(),
        }
    }
}

/// A Tendermint-style vote.
///
/// Canonical encoding order: `height`, `round`, the step byte,
/// `block_hash`, `validator_id`, `signature`.  An all-zero block hash
/// is a nil vote: no valid proposal was received.
#[derive(Clone, Debug)]
pub struct Vote {
    /// Block height being voted on.
    pub height: u64,
    /// Consensus round (0-indexed).
    pub round: u64,
    /// Prevote or precommit.
    pub step: VoteStep,
    /// Hash of the block voted on (32 bytes); all zeros for nil.
    pub block_hash: Vec<u8>,
    /// Validator casting the vote.
    pub validator_id: String,
    /// Ed25519 signature (64 bytes).
    pub signature: Vec<u8>,
}

/// Structural well-formedness of a vote.
pub open spec fn spec_vote_wf(v: &Vote) -> bool {
    &&& v.block_hash@.len() == 32
    &&& is_ascii_chars(v.validator_id@)
    &&& v.signature@.len() == 64
}

/// An all-zero 32-byte hash, the nil marker.
pub open spec fn spec_nil_hash() -> Seq<u8> {
    Seq::new(32, |i: int| 0u8)
}

/// A fresh 32-byte zero hash.
pub fn nil_hash() -> (r: Vec<u8>)
    ensures
        r@ == spec_nil_hash(),
{
    let mut v: Vec<u8> = Vec::new();
    let mut i: usize = 0;
    while i < 32
        invariant
            i <= 32,
            v@ =~= Seq::new(i as nat, |j: int| 0u8),
        decreases 32 - i,
    {
        v.push(0u8);
        i = i + 1;
    }
    proof {
        assert(v@ =~= spec_nil_hash());
    }
    v
}

impl Vote {
    /// A new, unsigned prevote.
    pub fn prevote(height: u64, round: u64, block_hash: Vec<u8>, validator_id: String) -> (r: Self)
        ensures
            r.height == height,
            r.round == round,
            r.step is Prevote,
            r.block_hash@ == block_hash@,
            r.validator_id@ == validator_id@,
            r.signature@ == Seq::new(64, |i: int| 0u8),
    {
        Vote {
            height,
            round,
            step: VoteStep::Prevote,
            block_hash,
            validator_id,
            signature: zero_signature(),
        }
    }

    /// A new, unsigned precommit.
    pub fn precommit(height: u64, round: u64, block_hash: Vec<u8>, validator_id: String) -> (r:
        Self)
        ensures
            r.height == height,
            r.round == round,
            r.step is Precommit,
            r.block_hash@ == block_hash@,
            r.validator_id@ == validator_id@,
            r.signature@ == Seq::new(64, |i: int| 0u8),
    {
        Vote {
            height,
            round,
            step: VoteStep::Precommit,
            block_hash,
            validator_id,
            signature: zero_signature(),
        }
    }

    /// A new, unsigned nil vote: no valid proposal was received.
    pub fn nil(height: u64, round: u64, step: VoteStep, validator_id: String) -> (r: Self)
        ensures
            r.height == height,
            r.round == round,
            r.step == step,
            r.block_hash@ == spec_nil_hash(),
            r.validator_id@ == validator_id@,
            r.signature@ == Seq::new(64, |i: int| 0u8),
    {
        Vote { height, round, step, block_hash: nil_hash(), validator_id, signature: zero_signature() }
    }

    /// Whether this is a nil vote.
    pub fn is_nil(&self) -> (r: bool)
        requires
            spec_vote_wf(self),
        ensures
            r == (self.block_hash@ == spec_nil_hash()),
    {
        let mut i: usize = 0;
        while i < 32
            invariant
                i <= 32,
                self.block_hash@.len() == 32,
                forall|j: int| 0 <= j < i ==> self.block_hash@[j] == 0u8,
            decreases 32 - i,
        {
            if self.block_hash[i] != 0 {
                proof {
                    assert(self.block_hash@[i as int] != spec_nil_hash()[i as int]);
                }
                return false;
            }
            i = i + 1;
        }
        proof {
            assert(self.block_hash@ =~= spec_nil_hash());
        }
        true
    }

    /// The domain separation prefix of this vote.
    pub fn domain_prefix(&self) -> (r: Vec<u8>)
        ensures
            self.step is Prevote ==> r@ == spec_prevote_domain(),
            self.step is Precommit ==> r@ == spec_precommit_domain(),
    {
        self.step.domain_prefix()
    }
}

/// A fresh 64-byte zero signature, the placeholder before signing.
pub fn zero_signature() -> (r: Vec<u8>)
    ensures
        r@ == Seq::new(64, |i: int| 0u8),
{
    let mut v: Vec<u8> = Vec::new();
    let mut i: usize = 0;
    while i < 64
        invariant
            i <= 64,
            v@ =~= Seq::new(i as nat, |j: int| 0u8),
        decreases 64 - i,
    {
        v.push(0u8);
        i = i + 1;
    }
    proof {
        assert(v@ =~= Seq::new(64, |i: int| 0u8));
    }
    v
}

/// Canonical encoding of the signable part of a vote: everything but
/// the signature.
pub open spec fn spec_enc_vote_core(v: Vote) -> Seq<u8> {
    crate::codec::spec_u64_le(v.height) + crate::codec::spec_u64_le(v.round) + seq![
        spec_step_byte(v.step),
    ] + v.block_hash@ + crate::codec::spec_enc_str(v.validator_id@)
}

/// Canonical encoding of a whole vote.
pub open spec fn spec_enc_vote(v: Vote) -> Seq<u8> {
    spec_enc_vote_core(v) + v.signature@
}

/// Two votes with equal contents, field by field.
pub open spec fn spec_vote_eq(a: Vote, b: Vote) -> bool {
    &&& a.height == b.height
    &&& a.round == b.round
    &&& a.step == b.step
    &&& a.block_hash@ == b.block_hash@
    &&& a.validator_id@ == b.validator_id@
    &&& a.signature@ == b.signature@
}

/// Append the canonical encoding of the signable part of a vote.
pub fn encode_vote_core(out: &mut Vec<u8>, v: &Vote)
    requires
        spec_vote_wf(v),
    ensures
        final(out)@ == old(out)@ + spec_enc_vote_core(*v),
{
    crate::codec::enc_u64(out, v.height);
    crate::codec::enc_u64(out, v.round);
    out.push(v.step.step_byte());
    crate::codec::enc_raw(out, &v.block_hash);
    crate::codec::enc_str(out, &v.validator_id);
    proof {
        assert(out@ =~= old(out)@ + spec_enc_vote_core(*v));
    }
}

/// The canonical encoding of a whole vote.
pub fn encode_vote(v: &Vote) -> (r: Vec<u8>)
    requires
        spec_vote_wf(v),
    ensures
        r@ == spec_enc_vote(*v),
{
    let mut out: Vec<u8> = Vec::new();
    encode_vote_core(&mut out, v);
    crate::codec::enc_raw(&mut out, &v.signature);
    proof {
        assert(out@ =~= spec_enc_vote(*v));
    }
    out
}

/// The positions of each field inside the encoding of `v`.
proof fn lemma_vote_layout(buf: Seq<u8>, v: Vote)
    requires
        spec_vote_wf(&v),
        buf == spec_enc_vote(v),
    ensures
        buf.len() == 121 + v.validator_id@.len() as int,
        buf.subrange(0, 8) == crate::codec::spec_u64_le(v.height),
        buf.subrange(8, 16) == crate::codec::spec_u64_le(v.round),
        buf[16] == spec_step_byte(v.step),
        buf.subrange(17, 49) == v.block_hash@,
        buf.subrange(49, 57 + v.validator_id@.len() as int) == crate::codec::spec_enc_str(
            v.validator_id@,
        ),
        buf.subrange(57 + v.validator_id@.len() as int, 121 + v.validator_id@.len() as int) == v.signature@,
{
    let c0 = crate::codec::spec_u64_le(v.height);
    let c1 = crate::codec::spec_u64_le(v.round);
    let c2 = seq![spec_step_byte(v.step)];
    let c3 = v.block_hash@;
    let c4 = crate::codec::spec_enc_str(v.validator_id@);
    let c5 = v.signature@;
    assert(buf =~= c0 + c1 + c2 + c3 + c4 + c5);
    assert(buf.subrange(0, 8) =~= c0);
    assert(buf.subrange(8, 16) =~= c1);
    assert(buf[16] == c2[0]);
    assert(buf.subrange(17, 49) =~= c3);
    assert(buf.subrange(49, 57 + v.validator_id@.len() as int) =~= c4);
    assert(buf.subrange(57 + v.validator_id@.len() as int, 121 + v.validator_id@.len() as int) =~= c5);
}

/// Decode a whole buffer as one vote.  Succeeds exactly on the
/// canonical encodings of well-formed votes.
#[verifier::rlimit(100)]
pub fn decode_vote(buf: &Vec<u8>) -> (r: Option<Vote>)
    ensures
        r matches Some(v) ==> spec_vote_wf(&v) && spec_enc_vote(v) == buf@,
        forall|v: Vote|
            spec_vote_wf(&v) && buf@ == spec_enc_vote(v) ==> (r matches Some(v2) && spec_vote_eq(
                v2,
                v,
            )),
{
    let ghost gbuf = buf@;
    let step0 = crate::codec::dec_u64(buf, 0);
    proof {
        assert forall|v: Vote| spec_vote_wf(&v) && gbuf == spec_enc_vote(v) implies (
        step0 matches Some(x) && x.0 == v.height && x.1 == 8) by {
            lemma_vote_layout(gbuf, v);
            crate::codec::lemma_le_roundtrip(v.height);
        }
    }
    let (height, p1) = match step0 {
        Some(x) => x,
        None => {
            return None;
        },
    };
    let step1 = crate::codec::dec_u64(buf, p1);
    proof {
        assert forall|v: Vote| spec_vote_wf(&v) && gbuf == spec_enc_vote(v) implies (
        step1 matches Some(x) && x.0 == v.round && x.1 == 16) by {
            lemma_vote_layout(gbuf, v);
            crate::codec::lemma_le_roundtrip(v.round);
        }
    }
    let (round, p2) = match step1 {
        Some(x) => x,
        None => {
            return None;
        },
    };
    if buf.len() <= 16 {
        proof {
            assert forall|v: Vote| spec_vote_wf(&v) && gbuf == spec_enc_vote(v) implies false by {
                lemma_vote_layout(gbuf, v);
            }
        }
        return None;
    }
    let step_b = buf[16];
    let step = if step_b == 1 {
        VoteStep::Prevote
    } else if step_b == 2 {
        VoteStep::Precommit
    } else {
        proof {
            assert forall|v: Vote| spec_vote_wf(&v) && gbuf == spec_enc_vote(v) implies false by {
                lemma_vote_layout(gbuf, v);
            }
        }
        return None;
    };
    let step3 = crate::codec::dec_raw(buf, 17, 32);
    proof {
        assert forall|v: Vote| spec_vote_wf(&v) && gbuf == spec_enc_vote(v) implies (
        step3 matches Some(x) && x.0@ == v.block_hash@ && x.1 == 49) by {
            lemma_vote_layout(gbuf, v);
        }
    }
    let (block_hash, p3) = match step3 {
        Some(x) => x,
        None => {
            return None;
        },
    };
    let step4 = crate::codec::dec_str(buf, p3);
    proof {
        assert forall|v: Vote| spec_vote_wf(&v) && gbuf == spec_enc_vote(v) implies (
        step4 matches Some(x) && x.0@ == v.validator_id@ && x.1 == 57 + v.validator_id@.len() as int) by {
            lemma_vote_layout(gbuf, v);
        }
    }
    let (validator_id, p4) = match step4 {
        Some(x) => x,
        None => {
            return None;
        },
    };
    let step5 = crate::codec::dec_raw(buf, p4, 64);
    proof {
        assert forall|v: Vote| spec_vote_wf(&v) && gbuf == spec_enc_vote(v) implies (
        step5 matches Some(x) && x.0@ == v.signature@ && x.1 == gbuf.len()) by {
            lemma_vote_layout(gbuf, v);
        }
    }
    let (signature, p5) = match step5 {
        Some(x) => x,
        None => {
            return None;
        },
    };
    if p5 != buf.len() {
        proof {
            assert forall|v: Vote|
                spec_vote_wf(&v) && gbuf == spec_enc_vote(v) implies false by {
                lemma_vote_layout(gbuf, v);
            }
        }
        return None;
    }
    let v2 = Vote { height, round, step, block_hash, validator_id, signature };
    proof {
        assert(gbuf =~= gbuf.subrange(0, 8) + gbuf.subrange(8, 16) + seq![gbuf[16]]
            + gbuf.subrange(17, 49) + gbuf.subrange(49, p4 as int) + gbuf.subrange(
            p4 as int,
            p5 as int,
        ));
        assert(spec_enc_vote(v2) =~= gbuf);
    }
    Some(v2)
}

/// A PoAI ranked vote: the validator's choice of the best proposal by
/// efficiency in a given height and round.
///
/// Canonical encoding order: `height`, `round`, `block_hash`,
/// `efficiency_score`, `validator_id`, `signature`.
#[derive(Clone, Debug)]
pub struct RankedVote {
    /// Block height.
    pub height: u64,
    /// Consensus round.
    pub round: u64,
    /// Hash of the best proposal (32 bytes).
    pub block_hash: Vec<u8>,
    /// Efficiency score of the chosen proposal.
    pub efficiency_score: u64,
    /// Validator casting the vote.
    pub validator_id: String,
    /// Ed25519 signature (64 bytes).
    pub signature: Vec<u8>,
}

/// Structural well-formedness of a ranked vote.
pub open spec fn spec_ranked_vote_wf(v: &RankedVote) -> bool {
    &&& v.block_hash@.len() == 32
    &&& is_ascii_chars(v.validator_id@)
    &&& v.signature@.len() == 64
}

impl RankedVote {
    /// A new, unsigned ranked vote.
    pub fn new(
        height: u64,
        round: u64,
        block_hash: Vec<u8>,
        efficiency_score: u64,
        validator_id: String,
    ) -> (r: Self)
        ensures
            r.height == height,
            r.round == round,
            r.block_hash@ == block_hash@,
            r.efficiency_score == efficiency_score,
            r.validator_id@ == validator_id@,
            r.signature@ == Seq::new(64, |i: int| 0u8),
    {
        RankedVote {
            height,
            round,
            block_hash,
            efficiency_score,
            validator_id,
            signature: zero_signature(),
        }
    }
}

/// Canonical encoding of the signable part of a ranked vote:
/// everything but the signature.
pub open spec fn spec_enc_ranked_vote_core(v: RankedVote) -> Seq<u8> {
    crate::codec::spec_u64_le(v.height) + crate::codec::spec_u64_le(v.round) + v.block_hash@
        + crate::codec::spec_u64_le(v.efficiency_score) + crate::codec::spec_enc_str(
        v.validator_id@,
    )
}

/// Canonical encoding of a whole ranked vote.
pub open spec fn spec_enc_ranked_vote(v: RankedVote) -> Seq<u8> {
    spec_enc_ranked_vote_core(v) + v.signature@
}

/// Two ranked votes with equal contents, field by field.
pub open spec fn spec_ranked_vote_eq(a: RankedVote, b: RankedVote) -> bool {
    &&& a.height == b.height
    &&& a.round == b.round
    &&& a.block_hash@ == b.block_hash@
    &&& a.efficiency_score == b.efficiency_score
    &&& a.validator_id@ == b.validator_id@
    &&& a.signature@ == b.signature@
}

/// Append the canonical encoding of the signable part of a ranked vote.
pub fn encode_ranked_vote_core(out: &mut Vec<u8>, v: &RankedVote)
    requires
        spec_ranked_vote_wf(v),
    ensures
        final(out)@ == old(out)@ + spec_enc_ranked_vote_core(*v),
{
    crate::codec::enc_u64(out, v.height);
    crate::codec::enc_u64(out, v.round);
    crate::codec::enc_raw(out, &v.block_hash);
    crate::codec::enc_u64(out, v.efficiency_score);
    crate::codec::enc_str(out, &v.validator_id);
    proof {
        assert(out@ =~= old(out)@ + spec_enc_ranked_vote_core(*v));
    }
}

/// The canonical encoding of a whole ranked vote.
pub fn encode_ranked_vote(v: &RankedVote) -> (r: Vec<u8>)
    requires
        spec_ranked_vote_wf(v),
    ensures
        r@ == spec_enc_ranked_vote(*v),
{
    let mut out: Vec<u8> = Vec::new();
    encode_ranked_vote_core(&mut out, v);
    crate::codec::enc_raw(&mut out, &v.signature);
    proof {
        assert(out@ =~= spec_enc_ranked_vote(*v));
    }
    out
}

/// The positions of each field inside the encoding of `v`.
proof fn lemma_ranked_vote_layout(buf: Seq<u8>, v: RankedVote)
    requires
        spec_ranked_vote_wf(&v),
        buf == spec_enc_ranked_vote(v),
    ensures
        buf.len() == 128 + v.validator_id@.len() as int,
        buf.subrange(0, 8) == crate::codec::spec_u64_le(v.height),
        buf.subrange(8, 16) == crate::codec::spec_u64_le(v.round),
        buf.subrange(16, 48) == v.block_hash@,
        buf.subrange(48, 56) == crate::codec::spec_u64_le(v.efficiency_score),
        buf.subrange(56, 64 + v.validator_id@.len() as int) == crate::codec::spec_enc_str(
            v.validator_id@,
        ),
        buf.subrange(64 + v.validator_id@.len() as int, 128 + v.validator_id@.len() as int) == v.signature@,
{
    let c0 = crate::codec::spec_u64_le(v.height);
    let c1 = crate::codec::spec_u64_le(v.round);
    let c2 = v.block_hash@;
    let c3 = crate::codec::spec_u64_le(v.efficiency_score);
    let c4 = crate::codec::spec_enc_str(v.validator_id@);
    let c5 = v.signature@;
    assert(buf =~= c0 + c1 + c2 + c3 + c4 + c5);
    assert(buf.subrange(0, 8) =~= c0);
    assert(buf.subrange(8, 16) =~= c1);
    assert(buf.subrange(16, 48) =~= c2);
    assert(buf.subrange(48, 56) =~= c3);
    assert(buf.subrange(56, 64 + v.validator_id@.len() as int) =~= c4);
    assert(buf.subrange(64 + v.validator_id@.len() as int, 128 + v.validator_id@.len() as int) =~= c5);
}

/// Decode a whole buffer as one ranked vote.  Succeeds exactly on the
/// canonical encodings of well-formed ranked votes.
#[verifier::rlimit(100)]
pub fn decode_ranked_vote(buf: &Vec<u8>) -> (r: Option<RankedVote>)
    ensures
        r matches Some(v) ==> spec_ranked_vote_wf(&v) && spec_enc_ranked_vote(v) == buf@,
        forall|v: RankedVote|
            spec_ranked_vote_wf(&v) && buf@ == spec_enc_ranked_vote(v) ==> (r matches Some(v2)
                && spec_ranked_vote_eq(v2, v)),
{
    let ghost gbuf = buf@;
    let step0 = crate::codec::dec_u64(buf, 0);
    proof {
        assert forall|v: RankedVote| spec_ranked_vote_wf(&v) && gbuf == spec_enc_ranked_vote(
            v,
        ) implies (step0 matches Some(x) && x.0 == v.height && x.1 == 8) by {
            lemma_ranked_vote_layout(gbuf, v);
            crate::codec::lemma_le_roundtrip(v.height);
        }
    }
    let (height, p1) = match step0 {
        Some(x) => x,
        None => {
            return None;
        },
    };
    let step1 = crate::codec::dec_u64(buf, p1);
    proof {
        assert forall|v: RankedVote| spec_ranked_vote_wf(&v) && gbuf == spec_enc_ranked_vote(
            v,
        ) implies (step1 matches Some(x) && x.0 == v.round && x.1 == 16) by {
            lemma_ranked_vote_layout(gbuf, v);
            crate::codec::lemma_le_roundtrip(v.round);
        }
    }
    let (round, p2) = match step1 {
        Some(x) => x,
        None => {
            return None;
        },
    };
    let step2 = crate::codec::dec_raw(buf, p2, 32);
    proof {
        assert forall|v: RankedVote| spec_ranked_vote_wf(&v) && gbuf == spec_enc_ranked_vote(
            v,
        ) implies (step2 matches Some(x) && x.0@ == v.block_hash@ && x.1 == 48) by {
            lemma_ranked_vote_layout(gbuf, v);
        }
    }
    let (block_hash, p3) = match step2 {
        Some(x) => x,
        None => {
            return None;
        },
    };
    let step3 = crate::codec::dec_u64(buf, p3);
    proof {
        assert forall|v: RankedVote| spec_ranked_vote_wf(&v) && gbuf == spec_enc_ranked_vote(
            v,
        ) implies (step3 matches Some(x) && x.0 == v.efficiency_score && x.1 == 56) by {
            lemma_ranked_vote_layout(gbuf, v);
            crate::codec::lemma_le_roundtrip(v.efficiency_score);
        }
    }
    let (efficiency_score, p4) = match step3 {
        Some(x) => x,
        None => {
            return None;
        },
    };
    let step4 = crate::codec::dec_str(buf, p4);
    proof {
        assert forall|v: RankedVote| spec_ranked_vote_wf(&v) && gbuf == spec_enc_ranked_vote(
            v,
        ) implies (step4 matches Some(x) && x.0@ == v.validator_id@ && x.1 == 64
            + v.validator_id@.len()) by {
            lemma_ranked_vote_layout(gbuf, v);
        }
    }
    let (validator_id, p5) = match step4 {
        Some(x) => x,
        None => {
            return None;
        },
    };
    let step5 = crate::codec::dec_raw(buf, p5, 64);
    proof {
        assert forall|v: RankedVote| spec_ranked_vote_wf(&v) && gbuf == spec_enc_ranked_vote(
            v,
        ) implies (step5 matches Some(x) && x.0@ == v.signature@ && x.1 == gbuf.len()) by {
            lemma_ranked_vote_layout(gbuf, v);
        }
    }
    let (signature, p6) = match step5 {
        Some(x) => x,
        None => {
            return None;
        },
    };
    if p6 != buf.len() {
        proof {
            assert forall|v: RankedVote|
                spec_ranked_vote_wf(&v) && gbuf == spec_enc_ranked_vote(v) implies false by {
                lemma_ranked_vote_layout(gbuf, v);
            }
        }
        return None;
    }
    let v2 = RankedVote { height, round, block_hash, efficiency_score, validator_id, signature };
    proof {
        assert(gbuf =~= gbuf.subrange(0, 8) + gbuf.subrange(8, 16) + gbuf.subrange(16, 48)
            + gbuf.subrange(48, 56) + gbuf.subrange(56, p5 as int) + gbuf.subrange(
            p5 as int,
            p6 as int,
        ));
        assert(spec_enc_ranked_vote(v2) =~= gbuf);
    }
    Some(v2)
}

/// Decoding the canonical encoding of a well-formed vote gives the
/// vote back: the codec round-trips.
pub proof fn lemma_vote_roundtrip(v: Vote, buf: Vec<u8>, r: Option<Vote>)
    requires
        spec_vote_wf(&v),
        buf@ == spec_enc_vote(v),
        call_ensures(decode_vote, (&buf,), r),
    ensures
        r matches Some(v2) && spec_vote_eq(v2, v),
{
}

/// Decoding the canonical encoding of a well-formed ranked vote gives
/// the ranked vote back: the codec round-trips.
pub proof fn lemma_ranked_vote_roundtrip(v: RankedVote, buf: Vec<u8>, r: Option<RankedVote>)
    requires
        spec_ranked_vote_wf(&v),
        buf@ == spec_enc_ranked_vote(v),
        call_ensures(decode_ranked_vote, (&buf,), r),
    ensures
        r matches Some(v2) && spec_ranked_vote_eq(v2, v),
{
}

} // verus!
