//! Canonical (v1) transaction type.
//!
//! A transaction is signed over the domain-separated canonical encoding of
//! its body; the `public_key` and `signature` fields are excluded from the
//! signed bytes so the signature can be checked against them.

use vstd::prelude::*;
use vstd::string::*;
use vstd::utf8::*;

verus! {

/// A v1 transaction.
///
/// Canonical encoding order: `nonce`, `chain_id`, `sender`, `recipient`,
/// `data`, `point_price`, `timestamp`, `public_key`, `signature`; integers
/// little-endian fixed-width, strings length-prefixed, the optional
/// recipient as a one-byte tag followed by the body.
#[derive(Clone, Debug)]
pub struct Transaction {
    /// Per-sender sequential counter; replay protection.
    /// A transaction is accepted only with `nonce == account nonce + 1`.
    pub nonce: u64,
    /// Chain identifier; cross-chain replay protection.
    pub chain_id: String,
    /// Sender address (hex string).
    pub sender: String,
    /// Recipient address (hex string); absent means contract deployment.
    pub recipient: Option<String>,
    /// Opaque payload.
    pub data: Vec<u8>,
    /// Fee in points; the priority weight of the 20/20/50/10 selection.
    pub point_price: u64,
    /// Creation time, seconds since epoch.
    pub timestamp: u64,
    /// Ed25519 public key of the sender (32 bytes).
    pub public_key: Vec<u8>,
    /// Ed25519 signature over the domain-separated body (64 bytes).
    pub signature: Vec<u8>,
}

/// Whether a possibly absent string is ASCII.
pub open spec fn spec_opt_str_ascii(s: Option<String>) -> bool {
    match s {
        Some(r) => is_ascii_chars(r@),
        None => true,
    }
}

/// Structural well-formedness of a transaction: the string fields are
/// ASCII (addresses are hex, chain identifiers plain names) and the key
/// and signature fields have their fixed lengths.
pub open spec fn spec_tx_wf(t: &Transaction) -> bool {
    &&& is_ascii_chars(t.chain_id@)
    &&& is_ascii_chars(t.sender@)
    &&& spec_opt_str_ascii(t.recipient)
    &&& t.public_key@.len() == 32
    &&& t.signature@.len() == 64
}

/// The character count of a possibly absent string.
pub open spec fn spec_opt_str_len(s: Option<String>) -> int {
    match s {
        Some(r) => r@.len() as int,
        None => 0,
    }
}

/// Byte estimate used for mempool accounting: 8 bytes each for `nonce`,
/// `point_price` and `timestamp`, 32 for the public key, 64 for the
/// signature, plus the variable-length fields.
pub open spec fn spec_estimated_size(t: &Transaction) -> int {
    120 + t.chain_id@.len() + t.sender@.len() + spec_opt_str_len(t.recipient) + t.data@.len()
}

impl Transaction {
    /// A new, unsigned transaction: the key and signature fields are
    /// zero-filled until `sign` fills them in.
    pub fn new(
        nonce: u64,
        chain_id: String,
        sender: String,
        recipient: Option<String>,
        data: Vec<u8>,
        point_price: u64,
        timestamp: u64,
    ) -> (r: Self)
        ensures
            r.nonce == nonce,
            r.chain_id@ == chain_id@,
            r.sender@ == sender@,
            r.recipient == recipient,
            r.data@ == data@,
            r.point_price == point_price,
            r.timestamp == timestamp,
            r.public_key@ == Seq::new(32, |i: int| 0u8),
            r.signature@ == Seq::new(64, |i: int| 0u8),
    {
        let mut public_key: Vec<u8> = Vec::new();
        let mut signature: Vec<u8> = Vec::new();
        let mut i: usize = 0;
        while i < 32
            invariant
                i <= 32,
                public_key@ =~= Seq::new(i as nat, |j: int| 0u8),
            decreases 32 - i,
        {
            public_key.push(0u8);
            i = i + 1;
        }
        let mut j: usize = 0;
        while j < 64
            invariant
                j <= 64,
                signature@ =~= Seq::new(j as nat, |k: int| 0u8),
            decreases 64 - j,
        {
            signature.push(0u8);
            j = j + 1;
        }
        proof {
            assert(public_key@ =~= Seq::new(32, |i: int| 0u8));
            assert(signature@ =~= Seq::new(64, |i: int| 0u8));
        }
        Transaction {
            nonce,
            chain_id,
            sender,
            recipient,
            data,
            point_price,
            timestamp,
            public_key,
            signature,
        }
    }

    /// Whether the transaction is a transfer (it has a recipient) rather
    /// than a contract deployment.
    pub fn is_transfer(&self) -> (r: bool)
        ensures
            r == (self.recipient is Some),
    {
        self.recipient.is_some()
    }

    /// Estimated wire size in bytes.
    pub fn estimated_size(&self) -> (r: usize)
        requires
            is_ascii_chars(self.chain_id@),
            is_ascii_chars(self.sender@),
            spec_opt_str_ascii(self.recipient),
            spec_estimated_size(self) <= usize::MAX,
        ensures
            r == spec_estimated_size(self),
    {
        broadcast use is_ascii_chars_encode_utf8;

        let recipient_len: usize = match &self.recipient {
            Some(rcp) => rcp.as_str().len(),
            None => 0,
        };
        120 + self.chain_id.as_str().len() + self.sender.as_str().len() + recipient_len
            + self.data.len()
    }
}

/// Canonical encoding of the signable body: every field but the key and
/// the signature.
pub open spec fn spec_enc_tx_core(t: Transaction) -> Seq<u8> {
    crate::codec::spec_u64_le(t.nonce) + crate::codec::spec_enc_str(t.chain_id@)
        + crate::codec::spec_enc_str(t.sender@) + crate::codec::spec_enc_opt_str(&t.recipient)
        + crate::codec::spec_enc_bytes(t.data@) + crate::codec::spec_u64_le(t.point_price)
        + crate::codec::spec_u64_le(t.timestamp)
}

/// Canonical encoding of a whole transaction: the signable body, then
/// the public key and the signature verbatim.
pub open spec fn spec_enc_tx(t: Transaction) -> Seq<u8> {
    spec_enc_tx_core(t) + t.public_key@ + t.signature@
}

/// Two transactions with equal contents, field by field (string fields
/// compared by their characters).
pub open spec fn spec_tx_eq(a: Transaction, b: Transaction) -> bool {
    &&& a.nonce == b.nonce
    &&& a.chain_id@ == b.chain_id@
    &&& a.sender@ == b.sender@
    &&& (match (a.recipient, b.recipient) {
        (Some(x), Some(y)) => x@ == y@,
        (None, None) => true,
        _ => false,
    })
    &&& a.data@ == b.data@
    &&& a.point_price == b.point_price
    &&& a.timestamp == b.timestamp
    &&& a.public_key@ == b.public_key@
    &&& a.signature@ == b.signature@
}

/// Append the canonical encoding of the signable body.
pub fn encode_transaction_core(out: &mut Vec<u8>, t: &Transaction)
    requires
        spec_tx_wf(t),
    ensures
        final(out)@ == old(out)@ + spec_enc_tx_core(*t),
{
    crate::codec::enc_u64(out, t.nonce);
    crate::codec::enc_str(out, &t.chain_id);
    crate::codec::enc_str(out, &t.sender);
    crate::codec::enc_opt_str(out, &t.recipient);
    crate::codec::enc_lp_bytes(out, &t.data);
    crate::codec::enc_u64(out, t.point_price);
    crate::codec::enc_u64(out, t.timestamp);
    proof {
        assert(out@ =~= old(out)@ + spec_enc_tx_core(*t));
    }
}

/// The canonical encoding of a whole transaction.
pub fn encode_transaction(t: &Transaction) -> (r: Vec<u8>)
    requires
        spec_tx_wf(t),
    ensures
        r@ == spec_enc_tx(*t),
{
    let mut out: Vec<u8> = Vec::new();
    encode_transaction_core(&mut out, t);
    crate::codec::enc_raw(&mut out, &t.public_key);
    crate::codec::enc_raw(&mut out, &t.signature);
    proof {
        assert(out@ =~= spec_enc_tx(*t));
    }
    out
}

/// The length of the head of an encoding: every field before
/// `point_price`.
pub open spec fn spec_tx_head_len(t: Transaction) -> int {
    24 + t.chain_id@.len() + t.sender@.len() + spec_opt_enc_len(t.recipient) + 8 + t.data@.len()
}

/// Decode the head of a transaction: `nonce`, `chain_id`, `sender`,
/// `recipient` and `data`, returning them with the next read position.
#[verifier::rlimit(100)]
fn decode_tx_head(buf: &Vec<u8>) -> (r: Option<(u64, String, String, Option<String>, Vec<u8>, usize)>)
    ensures
        r matches Some(v) ==> is_ascii_chars(v.1@) && is_ascii_chars(v.2@)
            && spec_opt_str_ascii(v.3) && v.5 <= buf@.len() && buf@.subrange(0, v.5 as int)
            == crate::codec::spec_u64_le(v.0) + crate::codec::spec_enc_str(v.1@)
            + crate::codec::spec_enc_str(v.2@) + crate::codec::spec_enc_opt_str(&v.3)
            + crate::codec::spec_enc_bytes(v.4@),
        forall|t: Transaction|
            spec_tx_wf(&t) && buf@ == spec_enc_tx(t) ==> (r matches Some(v) && v.0 == t.nonce
                && v.1@ == t.chain_id@ && v.2@ == t.sender@ && (match (v.3, t.recipient) {
                (Some(x), Some(y)) => x@ == y@,
                (None, None) => true,
                _ => false,
            }) && v.4@ == t.data@ && v.5 == spec_tx_head_len(t)),
{
    let ghost gbuf = buf@;
    let step0 = crate::codec::dec_u64(buf, 0);
    proof {
        assert forall|t: Transaction| spec_tx_wf(&t) && gbuf == spec_enc_tx(t) implies (
        step0 matches Some(v) && v.0 == t.nonce && v.1 == 8) by {
            lemma_tx_layout(gbuf, t);
            crate::codec::lemma_le_roundtrip(t.nonce);
        }
    }
    let (nonce, p1) = match step0 {
        Some(v) => v,
        None => {
            return None;
        },
    };
    let step1 = crate::codec::dec_str(buf, p1);
    proof {
        assert forall|t: Transaction| spec_tx_wf(&t) && gbuf == spec_enc_tx(t) implies (
        step1 matches Some(v) && v.0@ == t.chain_id@ && v.1 == 16 + t.chain_id@.len()) by {
            lemma_tx_layout(gbuf, t);
        }
    }
    let (chain_id, p2) = match step1 {
        Some(v) => v,
        None => {
            return None;
        },
    };
    let step2 = crate::codec::dec_str(buf, p2);
    proof {
        assert forall|t: Transaction| spec_tx_wf(&t) && gbuf == spec_enc_tx(t) implies (
        step2 matches Some(v) && v.0@ == t.sender@ && v.1 == 24 + t.chain_id@.len()
            + t.sender@.len()) by {
            lemma_tx_layout(gbuf, t);
        }
    }
    let (sender, p3) = match step2 {
        Some(v) => v,
        None => {
            return None;
        },
    };
    let step3 = crate::codec::dec_opt_str(buf, p3);
    proof {
        assert forall|t: Transaction| spec_tx_wf(&t) && gbuf == spec_enc_tx(t) implies (
        step3 matches Some(v) && (match (v.0, t.recipient) {
            (Some(x), Some(y)) => x@ == y@,
            (None, None) => true,
            _ => false,
        }) && v.1 == 24 + t.chain_id@.len() + t.sender@.len() + spec_opt_enc_len(t.recipient)) by {
            lemma_tx_layout(gbuf, t);
            match t.recipient {
                None => {
                    assert(gbuf[p3 as int] == 0);
                },
                Some(ref rs) => {
                    assert(gbuf[p3 as int] == 1);
                    assert(gbuf.subrange(p3 as int + 1, p3 as int + 9 + rs@.len())
                        =~= crate::codec::spec_enc_str(rs@));
                },
            }
        }
    }
    let (recipient, p4) = match step3 {
        Some(v) => v,
        None => {
            return None;
        },
    };
    let step4 = crate::codec::dec_lp_bytes(buf, p4);
    proof {
        assert forall|t: Transaction| spec_tx_wf(&t) && gbuf == spec_enc_tx(t) implies (
        step4 matches Some(v) && v.0@ == t.data@ && v.1 == spec_tx_head_len(t)) by {
            lemma_tx_layout(gbuf, t);
        }
    }
    let (data, p5) = match step4 {
        Some(v) => v,
        None => {
            return None;
        },
    };
    proof {
        assert(gbuf.subrange(0, p5 as int) =~= gbuf.subrange(0, p1 as int) + gbuf.subrange(
            p1 as int,
            p2 as int,
        ) + gbuf.subrange(p2 as int, p3 as int) + gbuf.subrange(p3 as int, p4 as int)
            + gbuf.subrange(p4 as int, p5 as int));
    }
    Some((nonce, chain_id, sender, recipient, data, p5))
}

/// Decode a whole buffer as one transaction.  Succeeds exactly on the
/// canonical encodings of well-formed transactions, and returns the
/// transaction encoded.
#[verifier::rlimit(100)]
pub fn decode_transaction(buf: &Vec<u8>) -> (r: Option<Transaction>)
    ensures
        r matches Some(t) ==> spec_tx_wf(&t) && spec_enc_tx(t) == buf@,
        forall|t: Transaction|
            spec_tx_wf(&t) && buf@ == spec_enc_tx(t) ==> (r matches Some(t2) && spec_tx_eq(t2, t)),
{
    let ghost gbuf = buf@;
    let head = decode_tx_head(buf);
    let (nonce, chain_id, sender, recipient, data, p5) = match head {
        Some(v) => v,
        None => {
            return None;
        },
    };
    let step5 = crate::codec::dec_u64(buf, p5);
    proof {
        assert forall|t: Transaction| spec_tx_wf(&t) && gbuf == spec_enc_tx(t) implies (
        step5 matches Some(v) && v.0 == t.point_price && v.1 == p5 + 8) by {
            lemma_tx_layout(gbuf, t);
            crate::codec::lemma_le_roundtrip(t.point_price);
        }
    }
    let (point_price, p6) = match step5 {
        Some(v) => v,
        None => {
            return None;
        },
    };
    let step6 = crate::codec::dec_u64(buf, p6);
    proof {
        assert forall|t: Transaction| spec_tx_wf(&t) && gbuf == spec_enc_tx(t) implies (
        step6 matches Some(v) && v.0 == t.timestamp && v.1 == p6 + 8) by {
            lemma_tx_layout(gbuf, t);
            crate::codec::lemma_le_roundtrip(t.timestamp);
        }
    }
    let (timestamp, p7) = match step6 {
        Some(v) => v,
        None => {
            return None;
        },
    };
    let step7 = crate::codec::dec_raw(buf, p7, 32);
    proof {
        assert forall|t: Transaction| spec_tx_wf(&t) && gbuf == spec_enc_tx(t) implies (
        step7 matches Some(v) && v.0@ == t.public_key@ && v.1 == p7 + 32) by {
            lemma_tx_layout(gbuf, t);
        }
    }
    let (public_key, p8) = match step7 {
        Some(v) => v,
        None => {
            return None;
        },
    };
    let step8 = crate::codec::dec_raw(buf, p8, 64);
    proof {
        assert forall|t: Transaction| spec_tx_wf(&t) && gbuf == spec_enc_tx(t) implies (
        step8 matches Some(v) && v.0@ == t.signature@ && v.1 == p8 + 64 && p8 + 64
            == gbuf.len()) by {
            lemma_tx_layout(gbuf, t);
        }
    }
    let (signature, p9) = match step8 {
        Some(v) => v,
        None => {
            return None;
        },
    };
    if p9 != buf.len() {
        proof {
            assert forall|t: Transaction|
                spec_tx_wf(&t) && gbuf == spec_enc_tx(t) implies false by {}
        }
        return None;
    }
    let t2 = Transaction {
        nonce,
        chain_id,
        sender,
        recipient,
        data,
        point_price,
        timestamp,
        public_key,
        signature,
    };
    proof {
        assert(gbuf =~= gbuf.subrange(0, p5 as int) + gbuf.subrange(p5 as int, p6 as int)
            + gbuf.subrange(p6 as int, p7 as int) + gbuf.subrange(p7 as int, p8 as int)
            + gbuf.subrange(p8 as int, p9 as int));
        assert(spec_enc_tx(t2) =~= gbuf);
        assert(spec_tx_wf(&t2));
    }
    Some(t2)
}

/// The length of an optional string's encoding: one tag byte, plus the
/// length-prefixed string when present.
pub open spec fn spec_opt_enc_len(o: Option<String>) -> int {
    match o {
        None => 1,
        Some(s) => 9 + s@.len() as int,
    }
}

/// The positions of each field inside the encoding of `t`, as the
/// decoder will find them.
pub open spec fn tx_layout(buf: Seq<u8>, t: Transaction) -> bool {
    let c0 = crate::codec::spec_u64_le(t.nonce);
    let c1 = crate::codec::spec_enc_str(t.chain_id@);
    let c2 = crate::codec::spec_enc_str(t.sender@);
    let c3 = crate::codec::spec_enc_opt_str(&t.recipient);
    let c4 = crate::codec::spec_enc_bytes(t.data@);
    let c5 = crate::codec::spec_u64_le(t.point_price);
    let c6 = crate::codec::spec_u64_le(t.timestamp);
    let l0 = c0.len() as int;
    let l1 = l0 + c1.len();
    let l2 = l1 + c2.len();
    let l3 = l2 + c3.len();
    let l4 = l3 + c4.len();
    let l5 = l4 + c5.len();
    let l6 = l5 + c6.len();
    let l7 = l6 + 32;
    let l8 = l7 + 64;
    &&& buf.len() == l8
    &&& buf.subrange(0, l0) == c0
    &&& buf.subrange(l0, l1) == c1
    &&& buf.subrange(l1, l2) == c2
    &&& buf.subrange(l2, l3) == c3
    &&& buf.subrange(l3, l4) == c4
    &&& buf.subrange(l4, l5) == c5
    &&& buf.subrange(l5, l6) == c6
    &&& buf.subrange(l6, l7) == t.public_key@
    &&& buf.subrange(l7, l8) == t.signature@
}

/// An encoding decomposes into its fields at their positions.
proof fn lemma_tx_layout(buf: Seq<u8>, t: Transaction)
    requires
        spec_tx_wf(&t),
        buf == spec_enc_tx(t),
    ensures
        tx_layout(buf, t),
{
    let c0 = crate::codec::spec_u64_le(t.nonce);
    let c1 = crate::codec::spec_enc_str(t.chain_id@);
    let c2 = crate::codec::spec_enc_str(t.sender@);
    let c3 = crate::codec::spec_enc_opt_str(&t.recipient);
    let c4 = crate::codec::spec_enc_bytes(t.data@);
    let c5 = crate::codec::spec_u64_le(t.point_price);
    let c6 = crate::codec::spec_u64_le(t.timestamp);
    let l0 = c0.len() as int;
    let l1 = l0 + c1.len();
    let l2 = l1 + c2.len();
    let l3 = l2 + c3.len();
    let l4 = l3 + c4.len();
    let l5 = l4 + c5.len();
    let l6 = l5 + c6.len();
    let l7 = l6 + 32;
    let l8 = l7 + 64;
    assert(buf =~= c0 + c1 + c2 + c3 + c4 + c5 + c6 + t.public_key@ + t.signature@);
    assert(buf.subrange(0, l0) =~= c0);
    assert(buf.subrange(l0, l1) =~= c1);
    assert(buf.subrange(l1, l2) =~= c2);
    assert(buf.subrange(l2, l3) =~= c3);
    assert(buf.subrange(l3, l4) =~= c4);
    assert(buf.subrange(l4, l5) =~= c5);
    assert(buf.subrange(l5, l6) =~= c6);
    assert(buf.subrange(l6, l7) =~= t.public_key@);
    assert(buf.subrange(l7, l8) =~= t.signature@);
}

/// Decoding the canonical encoding of a well-formed transaction gives
/// the transaction back: the codec round-trips.
pub proof fn lemma_tx_roundtrip(t: Transaction, buf: Vec<u8>, r: Option<Transaction>)
    requires
        spec_tx_wf(&t),
        buf@ == spec_enc_tx(t),
        call_ensures(decode_transaction, (&buf,), r),
    ensures
        r matches Some(t2) && spec_tx_eq(t2, t),
{
}

/// Domain prefix bytes of transactions.
pub open spec fn spec_tx_domain() -> Seq<u8> {
    encode_utf8("self-chain-transaction-v1"@)
}

/// The transaction hash: SHA-256 over the domain prefix and the
/// canonical encoding of the signable body.
pub open spec fn spec_tx_hash(t: Transaction) -> Seq<u8> {
    crate::crypto::sha256_of(spec_tx_domain() + spec_enc_tx_core(t))
}

/// Compute the transaction hash (32 bytes).
pub fn transaction_hash(t: &Transaction) -> (r: Vec<u8>)
    requires
        spec_tx_wf(t),
    ensures
        r@ == spec_tx_hash(*t),
        r@.len() == 32,
{
    let mut msg = "self-chain-transaction-v1".as_bytes_vec();
    encode_transaction_core(&mut msg, t);
    proof {
        assert(msg@ =~= spec_tx_domain() + spec_enc_tx_core(*t));
    }
    crate::crypto::sha256(&msg)
}

/// Decode one transaction at `pos`.  Whatever it accepts is the exact
/// canonical encoding of the returned transaction.
pub fn decode_transaction_at(buf: &Vec<u8>, pos: usize) -> (r: Option<(Transaction, usize)>)
    ensures
        r matches Some(v) ==> spec_tx_wf(&v.0) && pos <= v.1 <= buf@.len() && buf@.subrange(
            pos as int,
            v.1 as int,
        ) == spec_enc_tx(v.0),
{
    let (nonce, p1) = match crate::codec::dec_u64(buf, pos) {
        Some(v) => v,
        None => {
            return None;
        },
    };
    let (chain_id, p2) = match crate::codec::dec_str(buf, p1) {
        Some(v) => v,
        None => {
            return None;
        },
    };
    let (sender, p3) = match crate::codec::dec_str(buf, p2) {
        Some(v) => v,
        None => {
            return None;
        },
    };
    let (recipient, p4) = match crate::codec::dec_opt_str(buf, p3) {
        Some(v) => v,
        None => {
            return None;
        },
    };
    let (data, p5) = match crate::codec::dec_lp_bytes(buf, p4) {
        Some(v) => v,
        None => {
            return None;
        },
    };
    let (point_price, p6) = match crate::codec::dec_u64(buf, p5) {
        Some(v) => v,
        None => {
            return None;
        },
    };
    let (timestamp, p7) = match crate::codec::dec_u64(buf, p6) {
        Some(v) => v,
        None => {
            return None;
        },
    };
    let (public_key, p8) = match crate::codec::dec_raw(buf, p7, 32) {
        Some(v) => v,
        None => {
            return None;
        },
    };
    let (signature, p9) = match crate::codec::dec_raw(buf, p8, 64) {
        Some(v) => v,
        None => {
            return None;
        },
    };
    let t = Transaction {
        nonce,
        chain_id,
        sender,
        recipient,
        data,
        point_price,
        timestamp,
        public_key,
        signature,
    };
    proof {
        assert(buf@.subrange(pos as int, p9 as int) =~= buf@.subrange(pos as int, p1 as int)
            + buf@.subrange(p1 as int, p2 as int) + buf@.subrange(p2 as int, p3 as int)
            + buf@.subrange(p3 as int, p4 as int) + buf@.subrange(p4 as int, p5 as int)
            + buf@.subrange(p5 as int, p6 as int) + buf@.subrange(p6 as int, p7 as int)
            + buf@.subrange(p7 as int, p8 as int) + buf@.subrange(p8 as int, p9 as int));
        assert(buf@.subrange(pos as int, p9 as int) =~= spec_enc_tx(t));
    }
    Some((t, p9))
}

/// The canonical encoding is determined by the transaction's contents
/// alone: two transactions with equal fields encode byte-identically,
/// so any two implementations of this codec agree.
pub proof fn lemma_encoding_deterministic(
    t1: Transaction,
    t2: Transaction,
    b1: Vec<u8>,
    b2: Vec<u8>,
)
    requires
        spec_tx_eq(t1, t2),
        call_ensures(encode_transaction, (&t1,), b1),
        call_ensures(encode_transaction, (&t2,), b2),
    ensures
        b1@ == b2@,
{
    assert(spec_enc_tx(t1) =~= spec_enc_tx(t2)) by {
        match (t1.recipient, t2.recipient) {
            (Some(x), Some(y)) => {
                assert(crate::codec::spec_enc_opt_str(&t1.recipient) =~= crate::codec::spec_enc_opt_str(&t2.recipient)) by {
                    assert(crate::codec::spec_enc_str(x@) =~= crate::codec::spec_enc_str(y@));
                }
            },
            _ => {},
        }
    }
}

} // verus!
