//! Block header and block wire types.
//!
//! The block hash covers the header without its commit signatures, so
//! attaching a quorum of signatures after finalization does not change
//! the hash.

use vstd::prelude::*;
use vstd::string::*;
use vstd::utf8::*;
use crate::transaction::{Transaction, spec_tx_wf, spec_enc_tx};

verus! {

/// Domain prefix bytes of block headers.
pub open spec fn spec_block_domain() -> Seq<u8> {
    encode_utf8("self-chain-block-header-v1"@)
}

/// Commit signature from a committee member, attached to a finalized
/// block to prove a quorum.
#[derive(Clone, Debug)]
pub struct CommitSignature {
    /// Validator that signed.
    pub validator_id: String,
    /// Ed25519 signature (64 bytes).
    pub signature: Vec<u8>,
}

/// Structural well-formedness of a commit signature.
pub open spec fn spec_commit_sig_wf(c: &CommitSignature) -> bool {
    &&& is_ascii_chars(c.validator_id@)
    &&& c.signature@.len() == 64
}

/// Canonical encoding of one commit signature.
pub open spec fn spec_enc_commit_sig(c: CommitSignature) -> Seq<u8> {
    crate::codec::spec_enc_str(c.validator_id@) + c.signature@
}

/// Concatenated encodings of a batch of commit signatures.
pub open spec fn spec_enc_sig_seq(l: Seq<CommitSignature>) -> Seq<u8>
    decreases l.len(),
{
    if l.len() == 0 {
        Seq::empty()
    } else {
        spec_enc_sig_seq(l.drop_last()) + spec_enc_commit_sig(l.last())
    }
}

/// A length-prefixed list of commit signatures.
pub open spec fn spec_enc_sig_list(l: Seq<CommitSignature>) -> Seq<u8> {
    crate::codec::spec_u64_le(l.len() as u64) + spec_enc_sig_seq(l)
}

/// Every signature in the batch is well-formed.
pub open spec fn spec_sig_list_wf(l: Seq<CommitSignature>) -> bool {
    forall|i: int| 0 <= i < l.len() ==> spec_commit_sig_wf(#[trigger] &l[i])
}

/// Append the canonical encoding of a list of commit signatures.
pub fn enc_sig_list(out: &mut Vec<u8>, l: &Vec<CommitSignature>)
    requires
        spec_sig_list_wf(l@),
    ensures
        final(out)@ == old(out)@ + spec_enc_sig_list(l@),
{
    crate::codec::enc_u64(out, l.len() as u64);
    let mut i: usize = 0;
    while i < l.len()
        invariant
            i <= l@.len(),
            spec_sig_list_wf(l@),
            out@ == old(out)@ + crate::codec::spec_u64_le(l@.len() as u64) + spec_enc_sig_seq(
                l@.take(i as int),
            ),
        decreases l@.len() - i,
    {
        let c = &l[i];
        crate::codec::enc_str(out, &c.validator_id);
        crate::codec::enc_raw(out, &c.signature);
        proof {
            assert(l@.take(i + 1).drop_last() =~= l@.take(i as int));
            assert(l@.take(i + 1).last() == l@[i as int]);
            assert(out@ =~= old(out)@ + crate::codec::spec_u64_le(l@.len() as u64)
                + spec_enc_sig_seq(l@.take(i + 1)));
        }
        i = i + 1;
    }
    proof {
        assert(l@.take(l@.len() as int) =~= l@);
        assert(out@ =~= old(out)@ + spec_enc_sig_list(l@));
    }
}

/// Read a length-prefixed list of commit signatures at `pos`.  Whatever
/// it accepts is the exact canonical encoding of the returned list.
pub fn dec_sig_list(buf: &Vec<u8>, pos: usize) -> (r: Option<(Vec<CommitSignature>, usize)>)
    ensures
        r matches Some(v) ==> spec_sig_list_wf(v.0@) && pos <= v.1 <= buf@.len() && buf@.subrange(
            pos as int,
            v.1 as int,
        ) == spec_enc_sig_list(v.0@),
{
    let (n64, mut p) = match crate::codec::dec_u64(buf, pos) {
        Some(v) => v,
        None => {
            return None;
        },
    };
    if n64 > buf.len() as u64 {
        return None;
    }
    let n = n64 as usize;
    let mut l: Vec<CommitSignature> = Vec::new();
    let mut i: usize = 0;
    while i < n
        invariant
            i <= n,
            l@.len() == i,
            spec_sig_list_wf(l@),
            pos + 8 <= p <= buf@.len(),
            buf@.subrange(pos as int, pos as int + 8) == crate::codec::spec_u64_le(n as u64),
            buf@.subrange(pos as int + 8, p as int) == spec_enc_sig_seq(l@),
        decreases n - i,
    {
        let ghost p_before = p;
        let ghost l_before = l@;
        let (vid, p1) = match crate::codec::dec_str(buf, p) {
            Some(v) => v,
            None => {
                return None;
            },
        };
        let (sig, p2) = match crate::codec::dec_raw(buf, p1, 64) {
            Some(v) => v,
            None => {
                return None;
            },
        };
        let c = CommitSignature { validator_id: vid, signature: sig };
        l.push(c);
        p = p2;
        proof {
            assert(l@.drop_last() =~= l_before);
            assert(buf@.subrange(pos as int + 8, p as int) =~= buf@.subrange(
                pos as int + 8,
                p_before as int,
            ) + buf@.subrange(p_before as int, p1 as int) + buf@.subrange(p1 as int, p as int));
            assert(spec_enc_commit_sig(l@.last()) =~= buf@.subrange(p_before as int, p1 as int)
                + buf@.subrange(p1 as int, p as int));
            assert(buf@.subrange(pos as int + 8, p as int) =~= spec_enc_sig_seq(l@));
        }
        i = i + 1;
    }
    proof {
        assert(buf@.subrange(pos as int, p as int) =~= buf@.subrange(pos as int, pos as int + 8)
            + buf@.subrange(pos as int + 8, p as int));
        assert(buf@.subrange(pos as int, p as int) =~= spec_enc_sig_list(l@));
    }
    Some((l, p))
}

/// A v1 block header.
///
/// Canonical order for hashing: `height`, `previous_hash`, `timestamp`,
/// `state_root`, `transactions_root`, `proposer_id`, `round`,
/// `chain_id`, `efficiency_score`, `point_price`; the commit signature
/// list follows only in the full encoding.
#[derive(Clone, Debug)]
pub struct BlockHeader {
    /// Block height (0 is genesis).
    pub height: u64,
    /// SHA-256 hash of the previous block header (32 bytes).
    pub previous_hash: Vec<u8>,
    /// Unix timestamp, seconds since epoch.
    pub timestamp: u64,
    /// Root of the account state (32 bytes).
    pub state_root: Vec<u8>,
    /// Merkle root of the transactions (32 bytes).
    pub transactions_root: Vec<u8>,
    /// Validator that proposed the block.
    pub proposer_id: String,
    /// Consensus round the block was committed in.
    pub round: u64,
    /// Chain identifier; replay protection.
    pub chain_id: String,
    /// Deterministic efficiency score, fixed-point scaled by 1e6.
    pub efficiency_score: u64,
    /// Total fee of the block in points.
    pub point_price: u64,
    /// Quorum of committee signatures, attached after finalization.
    pub commit_signatures: Vec<CommitSignature>,
}

/// Structural well-formedness of a block header.
pub open spec fn spec_header_wf(h: &BlockHeader) -> bool {
    &&& h.previous_hash@.len() == 32
    &&& h.state_root@.len() == 32
    &&& h.transactions_root@.len() == 32
    &&& is_ascii_chars(h.proposer_id@)
    &&& is_ascii_chars(h.chain_id@)
    &&& spec_sig_list_wf(h.commit_signatures@)
}

/// Canonical encoding of the hashable part of a header: every field
/// but the commit signatures.
pub open spec fn spec_enc_header_core(h: BlockHeader) -> Seq<u8> {
    crate::codec::spec_u64_le(h.height) + h.previous_hash@ + crate::codec::spec_u64_le(h.timestamp)
        + h.state_root@ + h.transactions_root@ + crate::codec::spec_enc_str(h.proposer_id@)
        + crate::codec::spec_u64_le(h.round) + crate::codec::spec_enc_str(h.chain_id@)
        + crate::codec::spec_u64_le(h.efficiency_score) + crate::codec::spec_u64_le(h.point_price)
}

/// Canonical encoding of a whole header, commit signatures included.
pub open spec fn spec_enc_header(h: BlockHeader) -> Seq<u8> {
    spec_enc_header_core(h) + spec_enc_sig_list(h.commit_signatures@)
}

impl BlockHeader {
    /// The genesis header of a chain: height 0, zero hashes, no
    /// proposer, no signatures.
    pub fn genesis(chain_id: &str) -> (r: Self)
        ensures
            r.height == 0,
            r.previous_hash@ == crate::vote::spec_nil_hash(),
            r.timestamp == 0,
            r.state_root@ == crate::vote::spec_nil_hash(),
            r.transactions_root@ == crate::vote::spec_nil_hash(),
            r.proposer_id@ == Seq::<char>::empty(),
            r.round == 0,
            r.chain_id@ == chain_id@,
            r.efficiency_score == 0,
            r.point_price == 0,
            r.commit_signatures@.len() == 0,
    {
        BlockHeader {
            height: 0,
            previous_hash: crate::vote::nil_hash(),
            timestamp: 0,
            state_root: crate::vote::nil_hash(),
            transactions_root: crate::vote::nil_hash(),
            proposer_id: String::new(),
            round: 0,
            chain_id: String::from_str(chain_id),
            efficiency_score: 0,
            point_price: 0,
            commit_signatures: Vec::new(),
        }
    }
}

/// Append the canonical encoding of the hashable part of a header.
pub fn encode_header_core(out: &mut Vec<u8>, h: &BlockHeader)
    requires
        spec_header_wf(h),
    ensures
        final(out)@ == old(out)@ + spec_enc_header_core(*h),
{
    crate::codec::enc_u64(out, h.height);
    crate::codec::enc_raw(out, &h.previous_hash);
    crate::codec::enc_u64(out, h.timestamp);
    crate::codec::enc_raw(out, &h.state_root);
    crate::codec::enc_raw(out, &h.transactions_root);
    crate::codec::enc_str(out, &h.proposer_id);
    crate::codec::enc_u64(out, h.round);
    crate::codec::enc_str(out, &h.chain_id);
    crate::codec::enc_u64(out, h.efficiency_score);
    crate::codec::enc_u64(out, h.point_price);
    proof {
        assert(out@ =~= old(out)@ + spec_enc_header_core(*h));
    }
}

/// The canonical encoding of a whole header.
pub fn encode_header(h: &BlockHeader) -> (r: Vec<u8>)
    requires
        spec_header_wf(h),
    ensures
        r@ == spec_enc_header(*h),
{
    let mut out: Vec<u8> = Vec::new();
    encode_header_core(&mut out, h);
    enc_sig_list(&mut out, &h.commit_signatures);
    proof {
        assert(out@ =~= spec_enc_header(*h));
    }
    out
}

/// A block: a header and its ordered transactions.
#[derive(Clone, Debug)]
pub struct Block {
    /// Header with consensus metadata.
    pub header: BlockHeader,
    /// Transactions, in selection order.
    pub transactions: Vec<Transaction>,
}

/// Every transaction in the batch is well-formed.
pub open spec fn spec_tx_list_wf(l: Seq<Transaction>) -> bool {
    forall|i: int| 0 <= i < l.len() ==> spec_tx_wf(#[trigger] &l[i])
}

/// Structural well-formedness of a block.
pub open spec fn spec_block_wf(b: &Block) -> bool {
    &&& spec_header_wf(&b.header)
    &&& spec_tx_list_wf(b.transactions@)
}

/// Concatenated encodings of a batch of transactions.
pub open spec fn spec_enc_tx_seq(l: Seq<Transaction>) -> Seq<u8>
    decreases l.len(),
{
    if l.len() == 0 {
        Seq::empty()
    } else {
        spec_enc_tx_seq(l.drop_last()) + spec_enc_tx(l.last())
    }
}

/// A length-prefixed list of transactions.
pub open spec fn spec_enc_tx_list(l: Seq<Transaction>) -> Seq<u8> {
    crate::codec::spec_u64_le(l.len() as u64) + spec_enc_tx_seq(l)
}

/// Canonical encoding of a whole block: the header, then the
/// transaction list.
pub open spec fn spec_enc_block(b: Block) -> Seq<u8> {
    spec_enc_header(b.header) + spec_enc_tx_list(b.transactions@)
}

/// Append the canonical encoding of a list of transactions.
pub fn enc_tx_list(out: &mut Vec<u8>, l: &Vec<Transaction>)
    requires
        spec_tx_list_wf(l@),
    ensures
        final(out)@ == old(out)@ + spec_enc_tx_list(l@),
{
    crate::codec::enc_u64(out, l.len() as u64);
    let mut i: usize = 0;
    while i < l.len()
        invariant
            i <= l@.len(),
            spec_tx_list_wf(l@),
            out@ == old(out)@ + crate::codec::spec_u64_le(l@.len() as u64) + spec_enc_tx_seq(
                l@.take(i as int),
            ),
        decreases l@.len() - i,
    {
        crate::transaction::encode_transaction_core(out, &l[i]);
        crate::codec::enc_raw(out, &l[i].public_key);
        crate::codec::enc_raw(out, &l[i].signature);
        proof {
            assert(l@.take(i + 1).drop_last() =~= l@.take(i as int));
            assert(l@.take(i + 1).last() == l@[i as int]);
            assert(out@ =~= old(out)@ + crate::codec::spec_u64_le(l@.len() as u64)
                + spec_enc_tx_seq(l@.take(i + 1)));
        }
        i = i + 1;
    }
    proof {
        assert(l@.take(l@.len() as int) =~= l@);
        assert(out@ =~= old(out)@ + spec_enc_tx_list(l@));
    }
}

impl Block {
    /// A block from a header and its transactions.
    pub fn new(header: BlockHeader, transactions: Vec<Transaction>) -> (r: Self)
        ensures
            r.header == header,
            r.transactions@ == transactions@,
    {
        Block { header, transactions }
    }

    /// Block height.
    pub fn height(&self) -> (r: u64)
        ensures
            r == self.header.height,
    {
        self.header.height
    }

    /// Consensus round the block belongs to.
    pub fn round(&self) -> (r: u64)
        ensures
            r == self.header.round,
    {
        self.header.round
    }

    /// Number of transactions in the block.
    pub fn tx_count(&self) -> (r: usize)
        ensures
            r == self.transactions@.len(),
    {
        self.transactions.len()
    }
}

/// The canonical encoding of a whole block.
pub fn encode_block(b: &Block) -> (r: Vec<u8>)
    requires
        spec_block_wf(b),
    ensures
        r@ == spec_enc_block(*b),
{
    let mut out: Vec<u8> = Vec::new();
    encode_header_core(&mut out, &b.header);
    enc_sig_list(&mut out, &b.header.commit_signatures);
    enc_tx_list(&mut out, &b.transactions);
    proof {
        assert(out@ =~= spec_enc_block(*b));
    }
    out
}

/// The block hash: SHA-256 over the domain prefix and the canonical
/// encoding of the header without its commit signatures.  Attaching
/// commit signatures after finalization does not change the hash.
pub open spec fn spec_block_hash(h: BlockHeader) -> Seq<u8> {
    crate::crypto::sha256_of(spec_block_domain() + spec_enc_header_core(h))
}

/// Compute the block hash (32 bytes) of a header.
pub fn block_hash(h: &BlockHeader) -> (r: Vec<u8>)
    requires
        spec_header_wf(h),
    ensures
        r@ == spec_block_hash(*h),
        r@.len() == 32,
{
    let mut msg = "self-chain-block-header-v1".as_bytes_vec();
    encode_header_core(&mut msg, h);
    proof {
        assert(msg@ =~= spec_block_domain() + spec_enc_header_core(*h));
    }
    crate::crypto::sha256(&msg)
}

/// The hash of a header is untouched by its commit signatures: two
/// headers that agree on every other field hash identically.
pub proof fn lemma_hash_ignores_commit_signatures(a: BlockHeader, b: BlockHeader)
    requires
        a.height == b.height,
        a.previous_hash@ == b.previous_hash@,
        a.timestamp == b.timestamp,
        a.state_root@ == b.state_root@,
        a.transactions_root@ == b.transactions_root@,
        a.proposer_id@ == b.proposer_id@,
        a.round == b.round,
        a.chain_id@ == b.chain_id@,
        a.efficiency_score == b.efficiency_score,
        a.point_price == b.point_price,
    ensures
        spec_block_hash(a) == spec_block_hash(b),
{
    assert(spec_enc_header_core(a) =~= spec_enc_header_core(b));
}

/// Decode a header at `pos`, commit signatures included.  Whatever it
/// accepts is the exact canonical encoding of the returned header.
pub fn decode_header_at(buf: &Vec<u8>, pos: usize) -> (r: Option<(BlockHeader, usize)>)
    ensures
        r matches Some(v) ==> spec_header_wf(&v.0) && pos <= v.1 <= buf@.len() && buf@.subrange(
            pos as int,
            v.1 as int,
        ) == spec_enc_header(v.0),
{
    let (height, p1) = match crate::codec::dec_u64(buf, pos) {
        Some(v) => v,
        None => {
            return None;
        },
    };
    let (previous_hash, p2) = match crate::codec::dec_raw(buf, p1, 32) {
        Some(v) => v,
        None => {
            return None;
        },
    };
    let (timestamp, p3) = match crate::codec::dec_u64(buf, p2) {
        Some(v) => v,
        None => {
            return None;
        },
    };
    let (state_root, p4) = match crate::codec::dec_raw(buf, p3, 32) {
        Some(v) => v,
        None => {
            return None;
        },
    };
    let (transactions_root, p5) = match crate::codec::dec_raw(buf, p4, 32) {
        Some(v) => v,
        None => {
            return None;
        },
    };
    let (proposer_id, p6) = match crate::codec::dec_str(buf, p5) {
        Some(v) => v,
        None => {
            return None;
        },
    };
    let (round, p7) = match crate::codec::dec_u64(buf, p6) {
        Some(v) => v,
        None => {
            return None;
        },
    };
    let (chain_id, p8) = match crate::codec::dec_str(buf, p7) {
        Some(v) => v,
        None => {
            return None;
        },
    };
    let (efficiency_score, p9) = match crate::codec::dec_u64(buf, p8) {
        Some(v) => v,
        None => {
            return None;
        },
    };
    let (point_price, p10) = match crate::codec::dec_u64(buf, p9) {
        Some(v) => v,
        None => {
            return None;
        },
    };
    let (commit_signatures, p11) = match dec_sig_list(buf, p10) {
        Some(v) => v,
        None => {
            return None;
        },
    };
    let h = BlockHeader {
        height,
        previous_hash,
        timestamp,
        state_root,
        transactions_root,
        proposer_id,
        round,
        chain_id,
        efficiency_score,
        point_price,
        commit_signatures,
    };
    proof {
        assert(buf@.subrange(pos as int, p11 as int) =~= buf@.subrange(pos as int, p1 as int)
            + buf@.subrange(p1 as int, p2 as int) + buf@.subrange(p2 as int, p3 as int)
            + buf@.subrange(p3 as int, p4 as int) + buf@.subrange(p4 as int, p5 as int)
            + buf@.subrange(p5 as int, p6 as int) + buf@.subrange(p6 as int, p7 as int)
            + buf@.subrange(p7 as int, p8 as int) + buf@.subrange(p8 as int, p9 as int)
            + buf@.subrange(p9 as int, p10 as int) + buf@.subrange(p10 as int, p11 as int));
        assert(buf@.subrange(pos as int, p11 as int) =~= spec_enc_header(h));
    }
    Some((h, p11))
}

/// Decode a whole buffer as one header.  Whatever it accepts is the
/// exact canonical encoding of the returned header.
pub fn decode_header(buf: &Vec<u8>) -> (r: Option<BlockHeader>)
    ensures
        r matches Some(h) ==> spec_header_wf(&h) && spec_enc_header(h) == buf@,
{
    let (h, end) = match decode_header_at(buf, 0) {
        Some(v) => v,
        None => {
            return None;
        },
    };
    if end != buf.len() {
        return None;
    }
    proof {
        assert(buf@.subrange(0, buf@.len() as int) =~= buf@);
    }
    Some(h)
}

/// Read a length-prefixed list of transactions at `pos`.  Whatever it
/// accepts is the exact canonical encoding of the returned list.
pub fn dec_tx_list(buf: &Vec<u8>, pos: usize) -> (r: Option<(Vec<Transaction>, usize)>)
    ensures
        r matches Some(v) ==> spec_tx_list_wf(v.0@) && pos <= v.1 <= buf@.len() && buf@.subrange(
            pos as int,
            v.1 as int,
        ) == spec_enc_tx_list(v.0@),
{
    let (n64, p0) = match crate::codec::dec_u64(buf, pos) {
        Some(v) => v,
        None => {
            return None;
        },
    };
    if n64 > buf.len() as u64 {
        return None;
    }
    let n = n64 as usize;
    let mut p = p0;
    let mut l: Vec<Transaction> = Vec::new();
    let mut i: usize = 0;
    while i < n
        invariant
            i <= n,
            l@.len() == i,
            spec_tx_list_wf(l@),
            pos + 8 <= p <= buf@.len(),
            buf@.subrange(pos as int, pos as int + 8) == crate::codec::spec_u64_le(n as u64),
            buf@.subrange(pos as int + 8, p as int) == spec_enc_tx_seq(l@),
        decreases n - i,
    {
        let ghost p_before = p;
        let ghost l_before = l@;
        let (tx, p1) = match crate::transaction::decode_transaction_at(buf, p) {
            Some(v) => v,
            None => {
                return None;
            },
        };
        l.push(tx);
        p = p1;
        proof {
            assert(l@.drop_last() =~= l_before);
            assert(buf@.subrange(pos as int + 8, p as int) =~= buf@.subrange(
                pos as int + 8,
                p_before as int,
            ) + buf@.subrange(p_before as int, p as int));
            assert(buf@.subrange(pos as int + 8, p as int) =~= spec_enc_tx_seq(l@));
        }
        i = i + 1;
    }
    proof {
        assert(buf@.subrange(pos as int, p as int) =~= buf@.subrange(pos as int, pos as int + 8)
            + buf@.subrange(pos as int + 8, p as int));
        assert(buf@.subrange(pos as int, p as int) =~= spec_enc_tx_list(l@));
    }
    Some((l, p))
}

/// Decode a block at `pos`.  Whatever it accepts is the exact
/// canonical encoding of the returned block.
pub fn decode_block_at(buf: &Vec<u8>, pos: usize) -> (r: Option<(Block, usize)>)
    ensures
        r matches Some(v) ==> spec_block_wf(&v.0) && pos <= v.1 <= buf@.len() && buf@.subrange(
            pos as int,
            v.1 as int,
        ) == spec_enc_block(v.0),
{
    let (header, p1) = match decode_header_at(buf, pos) {
        Some(v) => v,
        None => {
            return None;
        },
    };
    let (transactions, p2) = match dec_tx_list(buf, p1) {
        Some(v) => v,
        None => {
            return None;
        },
    };
    let b = Block { header, transactions };
    proof {
        assert(buf@.subrange(pos as int, p2 as int) =~= buf@.subrange(pos as int, p1 as int)
            + buf@.subrange(p1 as int, p2 as int));
        assert(buf@.subrange(pos as int, p2 as int) =~= spec_enc_block(b));
    }
    Some((b, p2))
}

/// Decode a whole buffer as one block.  Whatever it accepts is the
/// exact canonical encoding of the returned block.
pub fn decode_block(buf: &Vec<u8>) -> (r: Option<Block>)
    ensures
        r matches Some(b) ==> spec_block_wf(&b) && spec_enc_block(b) == buf@,
{
    let (b, end) = match decode_block_at(buf, 0) {
        Some(v) => v,
        None => {
            return None;
        },
    };
    if end != buf.len() {
        return None;
    }
    proof {
        assert(buf@.subrange(0, buf@.len() as int) =~= buf@);
    }
    Some(b)
}

} // verus!
