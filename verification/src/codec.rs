//! Canonical byte codec primitives.
//!
//! Every signable structure is encoded as a deterministic byte string:
//! integers little-endian fixed-width, strings as a u64 length prefix
//! followed by their UTF-8 bytes, optional fields as a one-byte tag
//! followed by the body, fixed byte arrays verbatim, and variable
//! sequences as a length prefix followed by the concatenated element
//! encodings.
//!
//! Wire strings are stated over ASCII: every identifier of the data
//! model (addresses, hex-rendered hashes, chain and validator names)
//! is ASCII, the encoders require it, and the decoders reject any
//! byte outside the ASCII range.  On ASCII the UTF-8 byte count and
//! the character count coincide, so the length prefix counts both.
//!
//! Each decoder's contract has two directions: whatever it accepts is
//! the exact encoding of the value it returns, and the encoding of any
//! well-formed value is accepted and decodes to that value.  Round
//! trips for the wire types are built from these.

use vstd::prelude::*;
use vstd::utf8::*;

verus! {

/// Append one character to a string.
///
/// Relies on `String::push`, which appends the given character to the
/// end of the string.
#[verifier::external_body]
pub fn push_char(s: &mut String, c: char)
    ensures
        final(s)@ == old(s)@.push(c),
{
    s.push(c);
}

/// The eight bytes of a `u64`, least significant first.
pub open spec fn spec_u64_le(x: u64) -> Seq<u8> {
    seq![
        (x & 0xff) as u8,
        ((x >> 8) & 0xff) as u8,
        ((x >> 16) & 0xff) as u8,
        ((x >> 24) & 0xff) as u8,
        ((x >> 32) & 0xff) as u8,
        ((x >> 40) & 0xff) as u8,
        ((x >> 48) & 0xff) as u8,
        ((x >> 56) & 0xff) as u8,
    ]
}

/// The `u64` read from eight bytes, least significant first.
pub open spec fn spec_le_val(s: Seq<u8>) -> u64
    recommends
        s.len() == 8,
{
    (s[0] as u64) | ((s[1] as u64) << 8) | ((s[2] as u64) << 16) | ((s[3] as u64) << 24) | ((
    s[4] as u64) << 32) | ((s[5] as u64) << 40) | ((s[6] as u64) << 48) | ((s[7] as u64) << 56)
}

/// Reading back the eight bytes of `x` yields `x`.
pub proof fn lemma_le_roundtrip(x: u64)
    ensures
        spec_le_val(spec_u64_le(x)) == x,
{
    let s = spec_u64_le(x);
    assert(s[0] == (x & 0xff) as u8);
    assert(s[1] == ((x >> 8) & 0xff) as u8);
    assert(s[2] == ((x >> 16) & 0xff) as u8);
    assert(s[3] == ((x >> 24) & 0xff) as u8);
    assert(s[4] == ((x >> 32) & 0xff) as u8);
    assert(s[5] == ((x >> 40) & 0xff) as u8);
    assert(s[6] == ((x >> 48) & 0xff) as u8);
    assert(s[7] == ((x >> 56) & 0xff) as u8);
    assert((((x & 0xff) as u8) as u64) | (((((x >> 8) & 0xff) as u8) as u64) << 8) | (((((x >> 16)
        & 0xff) as u8) as u64) << 16) | (((((x >> 24) & 0xff) as u8) as u64) << 24) | (((((x >> 32)
        & 0xff) as u8) as u64) << 32) | (((((x >> 40) & 0xff) as u8) as u64) << 40) | (((((x >> 48)
        & 0xff) as u8) as u64) << 48) | (((((x >> 56) & 0xff) as u8) as u64) << 56) == x)
        by (bit_vector);
}

/// Eight bytes are the encoding of the value they read as.
pub proof fn lemma_le_bytes_roundtrip(s: Seq<u8>)
    requires
        s.len() == 8,
    ensures
        spec_u64_le(spec_le_val(s)) =~= s,
{
    let b0 = s[0];
    let b1 = s[1];
    let b2 = s[2];
    let b3 = s[3];
    let b4 = s[4];
    let b5 = s[5];
    let b6 = s[6];
    let b7 = s[7];
    let x = spec_le_val(s);
    assert({
        let x = (b0 as u64) | ((b1 as u64) << 8) | ((b2 as u64) << 16) | ((b3 as u64) << 24) | ((
        b4 as u64) << 32) | ((b5 as u64) << 40) | ((b6 as u64) << 48) | ((b7 as u64) << 56);
        (x & 0xff) as u8 == b0 && ((x >> 8) & 0xff) as u8 == b1 && ((x >> 16) & 0xff) as u8 == b2
            && ((x >> 24) & 0xff) as u8 == b3 && ((x >> 32) & 0xff) as u8 == b4 && ((x >> 40)
            & 0xff) as u8 == b5 && ((x >> 48) & 0xff) as u8 == b6 && ((x >> 56) & 0xff) as u8 == b7
    }) by (bit_vector);
}

/// Append the little-endian bytes of `x`.
pub fn enc_u64(out: &mut Vec<u8>, x: u64)
    ensures
        final(out)@ == old(out)@ + spec_u64_le(x),
{
    out.push((x & 0xff) as u8);
    out.push(((x >> 8) & 0xff) as u8);
    out.push(((x >> 16) & 0xff) as u8);
    out.push(((x >> 24) & 0xff) as u8);
    out.push(((x >> 32) & 0xff) as u8);
    out.push(((x >> 40) & 0xff) as u8);
    out.push(((x >> 48) & 0xff) as u8);
    out.push(((x >> 56) & 0xff) as u8);
    proof {
        assert(out@ =~= old(out)@ + spec_u64_le(x));
    }
}

/// Read a `u64` at `pos`; succeeds exactly when eight bytes are there.
pub fn dec_u64(buf: &Vec<u8>, pos: usize) -> (r: Option<(u64, usize)>)
    ensures
        pos + 8 <= buf@.len() ==> (r matches Some(v) && v.1 == pos + 8 && spec_u64_le(v.0)
            =~= buf@.subrange(pos as int, pos as int + 8) && v.0 == spec_le_val(
            buf@.subrange(pos as int, pos as int + 8),
        )),
        pos + 8 > buf@.len() ==> r is None,
{
    if pos >= buf.len() || buf.len() - pos < 8 {
        return None;
    }
    let x = (buf[pos] as u64) | ((buf[pos + 1] as u64) << 8) | ((buf[pos + 2] as u64) << 16) | ((
    buf[pos + 3] as u64) << 24) | ((buf[pos + 4] as u64) << 32) | ((buf[pos + 5] as u64) << 40) | ((
    buf[pos + 6] as u64) << 48) | ((buf[pos + 7] as u64) << 56);
    proof {
        let s = buf@.subrange(pos as int, pos as int + 8);
        assert(s[0] == buf@[pos as int]);
        assert(s[1] == buf@[pos as int + 1]);
        assert(s[2] == buf@[pos as int + 2]);
        assert(s[3] == buf@[pos as int + 3]);
        assert(s[4] == buf@[pos as int + 4]);
        assert(s[5] == buf@[pos as int + 5]);
        assert(s[6] == buf@[pos as int + 6]);
        assert(s[7] == buf@[pos as int + 7]);
        assert(x == spec_le_val(s));
        lemma_le_bytes_roundtrip(s);
    }
    Some((x, pos + 8))
}

/// Append every byte of `v`.
pub fn enc_raw(out: &mut Vec<u8>, v: &Vec<u8>)
    ensures
        final(out)@ == old(out)@ + v@,
{
    let mut i: usize = 0;
    while i < v.len()
        invariant
            i <= v@.len(),
            out@ == old(out)@ + v@.take(i as int),
        decreases v@.len() - i,
    {
        out.push(v[i]);
        proof {
            assert(old(out)@ + v@.take(i + 1) =~= (old(out)@ + v@.take(i as int)).push(v@[i as int]));
        }
        i = i + 1;
    }
    proof {
        assert(v@.take(v@.len() as int) =~= v@);
    }
}

/// Read `n` raw bytes at `pos`; succeeds exactly when they are there.
pub fn dec_raw(buf: &Vec<u8>, pos: usize, n: usize) -> (r: Option<(Vec<u8>, usize)>)
    ensures
        pos + n <= buf@.len() ==> (r matches Some(v) && v.1 == pos + n && v.0@ == buf@.subrange(
            pos as int,
            pos as int + n,
        )),
        pos + n > buf@.len() ==> r is None,
{
    let blen = buf.len();
    if pos > blen || blen - pos < n {
        return None;
    }
    let mut v: Vec<u8> = Vec::new();
    let mut i: usize = 0;
    while i < n
        invariant
            i <= n,
            blen == buf@.len(),
            pos + n <= blen,
            v@ == buf@.subrange(pos as int, pos as int + i),
        decreases n - i,
    {
        v.push(buf[pos + i]);
        proof {
            assert(buf@.subrange(pos as int, pos as int + i + 1) =~= buf@.subrange(
                pos as int,
                pos as int + i,
            ).push(buf@[pos as int + i]));
        }
        i = i + 1;
    }
    Some((v, pos + n))
}

/// A length-prefixed byte string: a u64 length, then the bytes.
pub open spec fn spec_enc_bytes(b: Seq<u8>) -> Seq<u8>
    recommends
        b.len() < 0x1_0000_0000_0000_0000,
{
    spec_u64_le(b.len() as u64) + b
}

/// Append a length-prefixed byte string.
pub fn enc_lp_bytes(out: &mut Vec<u8>, v: &Vec<u8>)
    ensures
        final(out)@ == old(out)@ + spec_enc_bytes(v@),
{
    enc_u64(out, v.len() as u64);
    enc_raw(out, v);
    proof {
        assert(out@ =~= old(out)@ + spec_enc_bytes(v@));
    }
}

/// Read a length-prefixed byte string at `pos`.
pub fn dec_lp_bytes(buf: &Vec<u8>, pos: usize) -> (r: Option<(Vec<u8>, usize)>)
    ensures
        r matches Some(v) ==> pos + 8 + v.0@.len() <= buf@.len() && v.1 == pos + 8 + v.0@.len()
            && buf@.subrange(pos as int, v.1 as int) == spec_enc_bytes(v.0@),
        forall|b: Seq<u8>|
            pos + 8 + b.len() <= buf@.len() && buf@.subrange(pos as int, pos as int + 8 + b.len())
                == spec_enc_bytes(b) ==> (r matches Some(v) && v.0@ == b && v.1 == pos + 8
                + b.len()),
{
    let n64 = match dec_u64(buf, pos) {
        Some(v) => v.0,
        None => {
            proof {
                assert forall|b: Seq<u8>|
                    pos + 8 + b.len() <= buf@.len() && buf@.subrange(
                        pos as int,
                        pos as int + 8 + b.len(),
                    ) == spec_enc_bytes(b) implies false by {}
            }
            return None;
        },
    };
    if n64 > (buf.len() as u64) {
        proof {
            assert forall|b: Seq<u8>|
                pos + 8 + b.len() <= buf@.len() && buf@.subrange(
                    pos as int,
                    pos as int + 8 + b.len(),
                ) == spec_enc_bytes(b) implies false by {
                vstd::std_specs::vec::axiom_spec_len(buf);
                lemma_enc_bytes_split(buf@, pos as int, b);
            }
        }
        return None;
    }
    let n = n64 as usize;
    let rr = dec_raw(buf, pos + 8, n);
    match rr {
        Some(v) => {
            proof {
                let got = v.0@;
                assert(buf@.subrange(pos as int, pos as int + 8 + n) =~= buf@.subrange(
                    pos as int,
                    pos as int + 8,
                ) + buf@.subrange(pos as int + 8, pos as int + 8 + n));
                assert(buf@.subrange(pos as int, pos as int + 8 + n) =~= spec_enc_bytes(got));
                assert forall|b: Seq<u8>|
                    pos + 8 + b.len() <= buf@.len() && buf@.subrange(
                        pos as int,
                        pos as int + 8 + b.len(),
                    ) == spec_enc_bytes(b) implies got == b && pos + 8 + n == pos + 8
                    + b.len() by {
                    vstd::std_specs::vec::axiom_spec_len(buf);
                    lemma_enc_bytes_split(buf@, pos as int, b);
                    assert(b.len() == n);
                    assert(b =~= buf@.subrange(pos as int + 8, pos as int + 8 + n));
                }
            }
            Some((v.0, pos + 8 + n))
        },
        None => {
            proof {
                assert forall|b: Seq<u8>|
                    pos + 8 + b.len() <= buf@.len() && buf@.subrange(
                        pos as int,
                        pos as int + 8 + b.len(),
                    ) == spec_enc_bytes(b) implies false by {
                    vstd::std_specs::vec::axiom_spec_len(buf);
                    lemma_enc_bytes_split(buf@, pos as int, b);
                }
            }
            None
        },
    }
}

/// A length-prefixed byte string standing at `pos` pins the eight
/// length bytes and the payload bytes that follow them.
proof fn lemma_enc_bytes_split(buf: Seq<u8>, pos: int, b: Seq<u8>)
    requires
        0 <= pos,
        b.len() < 0x1_0000_0000_0000_0000,
        pos + 8 + b.len() <= buf.len(),
        buf.subrange(pos, pos + 8 + b.len()) == spec_enc_bytes(b),
    ensures
        buf.subrange(pos, pos + 8) == spec_u64_le(b.len() as u64),
        spec_le_val(buf.subrange(pos, pos + 8)) == b.len() as u64,
        buf.subrange(pos + 8, pos + 8 + b.len()) == b,
{
    let enc = spec_enc_bytes(b);
    assert(buf.subrange(pos, pos + 8) =~= enc.subrange(0, 8));
    assert(enc.subrange(0, 8) =~= spec_u64_le(b.len() as u64));
    assert(buf.subrange(pos + 8, pos + 8 + b.len()) =~= enc.subrange(8, enc.len() as int));
    assert(enc.subrange(8, enc.len() as int) =~= b);
    lemma_le_roundtrip(b.len() as u64);
}

/// The bytes of an ASCII character sequence.
pub open spec fn spec_ascii_bytes(s: Seq<char>) -> Seq<u8> {
    s.map_values(|c: char| c as u8)
}

/// A length-prefixed ASCII string: a u64 length, then one byte per
/// character.  For ASCII these bytes are exactly the string's UTF-8
/// bytes and the length counts characters and bytes alike.
pub open spec fn spec_enc_str(s: Seq<char>) -> Seq<u8>
    recommends
        is_ascii_chars(s),
{
    spec_u64_le(s.len() as u64) + spec_ascii_bytes(s)
}

/// Append a length-prefixed ASCII string.
pub fn enc_str(out: &mut Vec<u8>, s: &String)
    requires
        is_ascii_chars(s@),
    ensures
        final(out)@ == old(out)@ + spec_enc_str(s@),
{
    let n = s.as_str().unicode_len();
    enc_u64(out, n as u64);
    let b = s.as_str().as_bytes_vec();
    proof {
        is_ascii_chars_encode_utf8(s@);
        assert(b@ =~= spec_ascii_bytes(s@));
    }
    enc_raw(out, &b);
    proof {
        assert(out@ =~= old(out)@ + spec_enc_str(s@));
    }
}

/// Read a length-prefixed ASCII string at `pos`.  Fails on any byte
/// outside the ASCII range.
#[verifier::loop_isolation(false)]
pub fn dec_str(buf: &Vec<u8>, pos: usize) -> (r: Option<(String, usize)>)
    ensures
        r matches Some(v) ==> is_ascii_chars(v.0@) && pos + 8 + v.0@.len() <= buf@.len() && v.1
            == pos + 8 + v.0@.len() && buf@.subrange(pos as int, v.1 as int) == spec_enc_str(v.0@),
        forall|cs: Seq<char>|
            is_ascii_chars(cs) && pos + 8 + cs.len() <= buf@.len() && buf@.subrange(
                pos as int,
                pos as int + 8 + cs.len(),
            ) == spec_enc_str(cs) ==> (r matches Some(v) && v.0@ == cs && v.1 == pos + 8
                + cs.len()),
{
    proof {
        assert forall|cs: Seq<char>| is_ascii_chars(cs) implies spec_enc_str(cs) =~= spec_enc_bytes(
            spec_ascii_bytes(cs),
        ) by {}
    }
    let (bv, end) = match dec_lp_bytes(buf, pos) {
        Some(v) => v,
        None => {
            return None;
        },
    };
    let mut i: usize = 0;
    let mut s = String::new();
    while i < bv.len()
        invariant
            i <= bv@.len(),
            pos + 8 + bv@.len() <= buf@.len(),
            end == pos + 8 + bv@.len(),
            buf@.subrange(pos as int, end as int) == spec_enc_bytes(bv@),
            forall|j: int| 0 <= j < i ==> bv@[j] < 0x80,
            s@.len() == i,
            forall|j: int| 0 <= j < i ==> s@[j] == bv@[j] as char,
        decreases bv@.len() - i,
    {
        let b = bv[i];
        if b >= 0x80 {
            proof {
                assert forall|cs: Seq<char>|
                    is_ascii_chars(cs) && pos + 8 + cs.len() <= buf@.len() && buf@.subrange(
                        pos as int,
                        pos as int + 8 + cs.len(),
                    ) == spec_enc_str(cs) implies false by {
                    is_ascii_chars_nat_bound(cs);
                    let b = spec_ascii_bytes(cs);
                    assert(b.len() == cs.len());
                    assert(spec_enc_str(cs) =~= spec_enc_bytes(b));
                    assert(buf@.subrange(pos as int, pos as int + 8 + b.len()) == spec_enc_bytes(
                        b,
                    ));
                    assert(bv@ == b);
                    assert(bv@[i as int] == cs[i as int] as u8);
                    assert(cs[i as int] as nat <= 0x7f);
                }
            }
            return None;
        }
        push_char(&mut s, b as char);
        i = i + 1;
    }
    proof {
        assert forall|j: int| 0 <= j < s@.len() implies '\0' <= #[trigger] s@[j] <= '\u{7f}' by {
            assert(s@[j] == bv@[j] as char);
        }
        assert(is_ascii_chars(s@));
        assert(spec_ascii_bytes(s@) =~= bv@);
        assert(buf@.subrange(pos as int, end as int) =~= spec_enc_str(s@));
        assert forall|cs: Seq<char>|
            is_ascii_chars(cs) && pos + 8 + cs.len() <= buf@.len() && buf@.subrange(
                pos as int,
                pos as int + 8 + cs.len(),
            ) == spec_enc_str(cs) implies s@ =~= cs && end == pos + 8 + cs.len() by {
            is_ascii_chars_nat_bound(cs);
            let b = spec_ascii_bytes(cs);
            assert(b.len() == cs.len());
            assert(spec_enc_str(cs) =~= spec_enc_bytes(b));
            assert(buf@.subrange(pos as int, pos as int + 8 + b.len()) == spec_enc_bytes(b));
            assert(bv@ == b);
            assert forall|j: int| 0 <= j < cs.len() implies s@[j] == cs[j] by {
                assert(bv@[j] == cs[j] as u8);
                assert(s@[j] == (cs[j] as u8) as char);
                assert(cs[j] as nat <= 0x7f);
            }
        }
    }
    Some((s, end))
}

/// Whether a possibly absent string is ASCII.
pub open spec fn spec_opt_ascii(o: &Option<String>) -> bool {
    match o {
        Some(s) => is_ascii_chars(s@),
        None => true,
    }
}

/// An optional string: a zero byte for absent, else a one byte and the
/// string.
pub open spec fn spec_enc_opt_str(o: &Option<String>) -> Seq<u8> {
    match o {
        None => seq![0u8],
        Some(s) => seq![1u8] + spec_enc_str(s@),
    }
}

/// Append an optional string.
pub fn enc_opt_str(out: &mut Vec<u8>, o: &Option<String>)
    requires
        spec_opt_ascii(o),
    ensures
        final(out)@ == old(out)@ + spec_enc_opt_str(o),
{
    match o {
        None => {
            out.push(0u8);
            proof {
                assert(out@ =~= old(out)@ + spec_enc_opt_str(o));
            }
        },
        Some(s) => {
            out.push(1u8);
            enc_str(out, s);
            proof {
                assert(out@ =~= old(out)@ + spec_enc_opt_str(o));
            }
        },
    }
}

/// Read an optional string at `pos`.
pub fn dec_opt_str(buf: &Vec<u8>, pos: usize) -> (r: Option<(Option<String>, usize)>)
    ensures
        r matches Some(v) ==> spec_opt_ascii(&v.0) && pos < v.1 <= buf@.len() && buf@.subrange(
            pos as int,
            v.1 as int,
        ) == spec_enc_opt_str(&v.0),
        pos + 1 <= buf@.len() && buf@[pos as int] == 0 ==> (r matches Some(v) && v.0 is None && v.1
            == pos + 1),
        forall|cs: Seq<char>|
            is_ascii_chars(cs) && pos + 9 + cs.len() <= buf@.len() && buf@[pos as int] == 1
                && buf@.subrange(pos as int + 1, pos as int + 9 + cs.len()) == spec_enc_str(cs)
                ==> (r matches Some(v) && (v.0 matches Some(s) && s@ == cs) && v.1 == pos + 9
                + cs.len()),
{
    if pos >= buf.len() {
        return None;
    }
    let tag = buf[pos];
    if tag == 0 {
        let r = Some((None, pos + 1));
        proof {
            assert(buf@.subrange(pos as int, pos as int + 1) =~= spec_enc_opt_str(
                &None::<String>,
            ));
        }
        return r;
    }
    if tag != 1 {
        return None;
    }
    let inner = dec_str(buf, pos + 1);
    match inner {
        Some(v) => {
            proof {
                assert(buf@.subrange(pos as int, v.1 as int) =~= seq![1u8] + buf@.subrange(
                    pos as int + 1,
                    v.1 as int,
                ));
                assert(buf@.subrange(pos as int, v.1 as int) =~= spec_enc_opt_str(
                    &Some(v.0),
                ));
                assert forall|cs: Seq<char>|
                    is_ascii_chars(cs) && pos + 9 + cs.len() <= buf@.len() && buf@[pos as int] == 1
                        && buf@.subrange(pos as int + 1, pos as int + 9 + cs.len())
                        == spec_enc_str(cs) implies v.0@ == cs && v.1 == pos + 9 + cs.len() by {}
            }
            Some((Some(v.0), v.1))
        },
        None => {
            proof {
                assert forall|cs: Seq<char>|
                    is_ascii_chars(cs) && pos + 9 + cs.len() <= buf@.len() && buf@[pos as int] == 1
                        && buf@.subrange(pos as int + 1, pos as int + 9 + cs.len())
                        == spec_enc_str(cs) implies false by {}
            }
            None
        },
    }
}

/// Copy a byte string.
pub fn copy_bytes(v: &Vec<u8>) -> (r: Vec<u8>)
    ensures
        r@ == v@,
{
    let mut out: Vec<u8> = Vec::new();
    let mut i: usize = 0;
    while i < v.len()
        invariant
            i <= v@.len(),
            out@ == v@.take(i as int),
        decreases v@.len() - i,
    {
        out.push(v[i]);
        proof {
            assert(v@.take(i + 1) =~= v@.take(i as int).push(v@[i as int]));
        }
        i = i + 1;
    }
    proof {
        assert(v@.take(v@.len() as int) =~= v@);
    }
    out
}

} // verus!
