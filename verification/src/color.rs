//! Color-marker accounting.
//!
//! Every wallet carries a 24-bit color rendered as six lowercase hex
//! characters.  Each transaction contributes a six-digit `hex_tx`
//! derived from its hash; the wallet's new color is the old color plus
//! `hex_tx`, modulo 2^24.  Validators keep this small map instead of
//! replaying the chain's full history.

use vstd::prelude::*;
use vstd::string::*;
use vstd::utf8::*;
use crate::transaction::{Transaction, spec_tx_wf, spec_tx_hash};

verus! {

/// Whether a character is a hexadecimal digit.
pub open spec fn spec_is_hex_digit(c: char) -> bool {
    ('0' <= c && c <= '9') || ('a' <= c && c <= 'f') || ('A' <= c && c <= 'F')
}

/// The value of a hexadecimal digit character (zero for others).
pub open spec fn spec_hex_digit_val(c: char) -> int {
    if '0' <= c && c <= '9' {
        c as int - '0' as int
    } else if 'a' <= c && c <= 'f' {
        c as int - 'a' as int + 10
    } else if 'A' <= c && c <= 'F' {
        c as int - 'A' as int + 10
    } else {
        0
    }
}

/// A syntactically valid color: exactly six hex digit characters.
pub open spec fn spec_is_valid_hex(s: Seq<char>) -> bool {
    s.len() == 6 && forall|i: int| 0 <= i < 6 ==> spec_is_hex_digit(#[trigger] s[i])
}

/// The value of a hex digit character, executable form.
fn hex_digit_val(c: char) -> (r: u32)
    ensures
        r == spec_hex_digit_val(c),
        r < 16 || !spec_is_hex_digit(c),
{
    let u = c as u32;
    if u >= 48 && u <= 57 {
        u - 48
    } else if u >= 97 && u <= 102 {
        u - 97 + 10
    } else if u >= 65 && u <= 70 {
        u - 65 + 10
    } else {
        0
    }
}

/// Whether a character is a hexadecimal digit, executable form.
fn is_hex_digit(c: char) -> (r: bool)
    ensures
        r == spec_is_hex_digit(c),
{
    let u = c as u32;
    (u >= 48 && u <= 57) || (u >= 97 && u <= 102) || (u >= 65 && u <= 70)
}

/// Whether a string is a syntactically valid six-hex-digit color.
pub fn is_valid_hex(color: &String) -> (r: bool)
    ensures
        r == spec_is_valid_hex(color@),
{
    let n = color.as_str().unicode_len();
    if n != 6 {
        return false;
    }
    let mut i: usize = 0;
    while i < 6
        invariant
            i <= 6,
            color@.len() == 6,
            forall|j: int| 0 <= j < i ==> spec_is_hex_digit(#[trigger] color@[j]),
        decreases 6 - i,
    {
        if !is_hex_digit(color.as_str().get_char(i)) {
            return false;
        }
        i = i + 1;
    }
    true
}

/// The 24-bit value of a six-digit color.
pub open spec fn spec_hex6_val(s: Seq<char>) -> int
    recommends
        spec_is_valid_hex(s),
{
    spec_hex_digit_val(s[0]) * 0x100000 + spec_hex_digit_val(s[1]) * 0x10000 + spec_hex_digit_val(
        s[2],
    ) * 0x1000 + spec_hex_digit_val(s[3]) * 0x100 + spec_hex_digit_val(s[4]) * 0x10
        + spec_hex_digit_val(s[5])
}

/// Parse a valid six-digit color into its 24-bit value.
fn parse_hex6(s: &String) -> (r: u32)
    requires
        spec_is_valid_hex(s@),
    ensures
        r == spec_hex6_val(s@),
        r < 0x1000000,
{
    let d0 = hex_digit_val(s.as_str().get_char(0));
    let d1 = hex_digit_val(s.as_str().get_char(1));
    let d2 = hex_digit_val(s.as_str().get_char(2));
    let d3 = hex_digit_val(s.as_str().get_char(3));
    let d4 = hex_digit_val(s.as_str().get_char(4));
    let d5 = hex_digit_val(s.as_str().get_char(5));
    d0 * 0x100000 + d1 * 0x10000 + d2 * 0x1000 + d3 * 0x100 + d4 * 0x10 + d5
}

/// The six-character lowercase rendering of a 24-bit value: the hex of
/// its three bytes, high byte first.
pub open spec fn spec_format_hex6(v: int) -> Seq<char>
    recommends
        0 <= v < 0x1000000,
{
    crate::hexstr::spec_to_hex(
        seq![(v / 0x10000) as u8, ((v / 0x100) % 0x100) as u8, (v % 0x100) as u8],
    )
}

/// Every character of a hex rendering is a hex digit.
pub proof fn lemma_to_hex_digits(b: Seq<u8>)
    ensures
        forall|i: int|
            0 <= i < crate::hexstr::spec_to_hex(b).len() ==> spec_is_hex_digit(
                #[trigger] crate::hexstr::spec_to_hex(b)[i],
            ),
    decreases b.len(),
{
    if b.len() > 0 {
        lemma_to_hex_digits(b.drop_last());
        crate::hexstr::lemma_to_hex_ascii(b.drop_last());
        assert forall|i: int| 0 <= i < crate::hexstr::spec_to_hex(b).len() implies spec_is_hex_digit(
            #[trigger] crate::hexstr::spec_to_hex(b)[i],
        ) by {
            if i < crate::hexstr::spec_to_hex(b.drop_last()).len() {
                assert(crate::hexstr::spec_to_hex(b)[i] == crate::hexstr::spec_to_hex(
                    b.drop_last(),
                )[i]);
            } else {
                assert(b.last() / 16 < 16 && b.last() % 16 < 16);
            }
        }
    }
}

/// Render a 24-bit value as a six-digit lowercase color.
pub fn format_hex6(v: u32) -> (r: String)
    requires
        v < 0x1000000,
    ensures
        r@ == spec_format_hex6(v as int),
        spec_is_valid_hex(r@),
{
    let mut bytes: Vec<u8> = Vec::new();
    bytes.push((v / 0x10000) as u8);
    bytes.push(((v / 0x100) % 0x100) as u8);
    bytes.push((v % 0x100) as u8);
    proof {
        assert(bytes@ =~= seq![
            (v as int / 0x10000) as u8,
            ((v as int / 0x100) % 0x100) as u8,
            (v as int % 0x100) as u8,
        ]);
    }
    let s = crate::hexstr::to_hex_string(&bytes);
    proof {
        crate::hexstr::lemma_to_hex_ascii(bytes@);
        lemma_to_hex_digits(bytes@);
    }
    s
}

/// The evolved color: the current color plus the transaction hex,
/// modulo 2^24.
pub open spec fn spec_color_add(current: int, hex_tx: int) -> int {
    (current + hex_tx) % 0x1000000
}

/// Evolve a wallet color by a transaction hex.  Succeeds if and only
/// if both arguments are syntactically valid colors; the result is
/// `(current + hex_tx) mod 2^24`, rendered as six lowercase digits.
pub fn calculate_new_color(current_color: &String, hex_tx: &String) -> (r: Option<String>)
    ensures
        (spec_is_valid_hex(current_color@) && spec_is_valid_hex(hex_tx@)) <==> r is Some,
        r matches Some(s) ==> s@ == spec_format_hex6(
            spec_color_add(spec_hex6_val(current_color@), spec_hex6_val(hex_tx@)),
        ) && spec_is_valid_hex(s@),
{
    if !is_valid_hex(current_color) {
        return None;
    }
    if !is_valid_hex(hex_tx) {
        return None;
    }
    let a = parse_hex6(current_color);
    let b = parse_hex6(hex_tx);
    let sum = (a + b) % 0x1000000;
    Some(format_hex6(sum))
}

/// Whether a color transition is syntactically valid: both endpoints
/// are six-hex-digit colors.
pub fn validate_color_transition(current: &String, new_color: &String) -> (r: bool)
    ensures
        r == (spec_is_valid_hex(current@) && spec_is_valid_hex(new_color@)),
{
    is_valid_hex(current) && is_valid_hex(new_color)
}

/// The sum of the base-16 digits of a non-negative value.
pub open spec fn spec_digit_sum(v: int) -> int
    decreases v,
{
    if v <= 0 {
        0
    } else {
        v % 16 + spec_digit_sum(v / 16)
    }
}

/// Digit sums are non-negative, never exceed their value, and strictly
/// shrink values of two or more digits.
pub proof fn lemma_digit_sum_bounds(v: int)
    requires
        v >= 0,
    ensures
        0 <= spec_digit_sum(v) <= v,
        v >= 16 ==> spec_digit_sum(v) < v,
    decreases v,
{
    if v > 0 {
        lemma_digit_sum_bounds(v / 16);
    }
}

/// Iterated digit-summing down to one hex digit.
pub open spec fn spec_reduce(v: int) -> int
    decreases v,
        when v >= 0 via spec_reduce_dec
{
    if v < 16 {
        v
    } else {
        spec_reduce(spec_digit_sum(v))
    }
}

#[via_fn]
proof fn spec_reduce_dec(v: int) {
    if v >= 16 {
        lemma_digit_sum_bounds(v);
    }
}

/// The digit sum of a value, executable form.
fn digit_sum(v: u32) -> (r: u32)
    ensures
        r == spec_digit_sum(v as int),
{
    proof {
        lemma_digit_sum_bounds(v as int);
    }
    let mut acc: u32 = 0;
    let mut x = v;
    while x > 0
        invariant
            acc + spec_digit_sum(x as int) == spec_digit_sum(v as int),
            spec_digit_sum(v as int) <= v,
        decreases x,
    {
        proof {
            lemma_digit_sum_bounds(x as int);
            lemma_digit_sum_bounds(x as int / 16);
        }
        acc = acc + x % 16;
        x = x / 16;
    }
    acc
}

/// The sum of the hex digit values of a string's characters,
/// non-digits counting zero.
pub open spec fn spec_char_digit_sum(s: Seq<char>) -> int
    decreases s.len(),
{
    if s.len() == 0 {
        0
    } else {
        spec_char_digit_sum(s.drop_last()) + spec_hex_digit_val(s.last())
    }
}

/// Character digit sums are bounded by fifteen per character.
pub proof fn lemma_char_digit_sum_bounds(s: Seq<char>)
    ensures
        0 <= spec_char_digit_sum(s) <= 15 * s.len(),
    decreases s.len(),
{
    if s.len() > 0 {
        lemma_char_digit_sum_bounds(s.drop_last());
    }
}

/// Sum a string's hex digits repeatedly until one hex digit remains,
/// and return that digit as a lowercase character.  Characters outside
/// the hex range contribute nothing.
pub fn reduce_to_single_hex_digit(hex_str: &String) -> (r: char)
    requires
        hex_str@.len() <= 0x1000000,
    ensures
        r == crate::hexstr::spec_hex_char(spec_reduce(spec_char_digit_sum(hex_str@)) as u8),
{
    proof {
        lemma_char_digit_sum_bounds(hex_str@);
    }
    let n = hex_str.as_str().unicode_len();
    let mut sum: u32 = 0;
    let mut i: usize = 0;
    while i < n
        invariant
            i <= n,
            n == hex_str@.len(),
            n <= 0x1000000,
            sum == spec_char_digit_sum(hex_str@.take(i as int)),
            sum <= 15 * i,
        decreases n - i,
    {
        let c = hex_str.as_str().get_char(i);
        sum = sum + hex_digit_val(c);
        proof {
            assert(hex_str@.take(i + 1).drop_last() =~= hex_str@.take(i as int));
            assert(hex_str@.take(i + 1).last() == hex_str@[i as int]);
        }
        i = i + 1;
    }
    proof {
        assert(hex_str@.take(n as int) =~= hex_str@);
    }
    let mut x = sum;
    while x >= 16
        invariant
            spec_reduce(x as int) == spec_reduce(sum as int),
            x >= 0,
        decreases x,
    {
        proof {
            lemma_digit_sum_bounds(x as int);
        }
        x = digit_sum(x);
    }
    crate::hexstr::hex_char(x as u8)
}

/// The sum of the hex nibbles of a byte string: the digit sum of its
/// hex rendering.
pub open spec fn spec_nibble_sum(b: Seq<u8>) -> int
    decreases b.len(),
{
    if b.len() == 0 {
        0
    } else {
        spec_nibble_sum(b.drop_last()) + b.last() / 16 + b.last() % 16
    }
}

/// Nibble sums are non-negative and bounded.
pub proof fn lemma_nibble_sum_bounds(b: Seq<u8>)
    ensures
        0 <= spec_nibble_sum(b) <= 30 * b.len(),
    decreases b.len(),
{
    if b.len() > 0 {
        lemma_nibble_sum_bounds(b.drop_last());
    }
}

/// One digit of a transaction's hex: the nibble sum of a slice of its
/// hash, reduced to a single hex digit.
pub open spec fn spec_hex_tx_digit(hash: Seq<u8>, from: int, to: int) -> char {
    crate::hexstr::spec_hex_char(spec_reduce(spec_nibble_sum(hash.subrange(from, to))) as u8)
}

/// The six-character hex marker of a transaction: its 32-byte hash is
/// split into six slices (five of five bytes, one of seven), and each
/// slice's hex digits are summed down to a single digit.
pub open spec fn spec_hex_tx(t: Transaction) -> Seq<char> {
    let h = spec_tx_hash(t);
    seq![
        spec_hex_tx_digit(h, 0, 5),
        spec_hex_tx_digit(h, 5, 10),
        spec_hex_tx_digit(h, 10, 15),
        spec_hex_tx_digit(h, 15, 20),
        spec_hex_tx_digit(h, 20, 25),
        spec_hex_tx_digit(h, 25, 32),
    ]
}

/// Sum the nibbles of a hash slice, executable form.
fn nibble_sum_range(hash: &Vec<u8>, from: usize, to: usize) -> (r: u32)
    requires
        from <= to <= hash@.len(),
        hash@.len() <= 64,
    ensures
        r == spec_nibble_sum(hash@.subrange(from as int, to as int)),
{
    proof {
        lemma_nibble_sum_bounds(hash@.subrange(from as int, to as int));
    }
    let mut acc: u32 = 0;
    let mut i = from;
    while i < to
        invariant
            from <= i <= to <= hash@.len(),
            hash@.len() <= 64,
            acc == spec_nibble_sum(hash@.subrange(from as int, i as int)),
            acc <= 30 * (i - from),
        decreases to - i,
    {
        let b = hash[i];
        proof {
            assert(hash@.subrange(from as int, i + 1).drop_last() =~= hash@.subrange(
                from as int,
                i as int,
            ));
            assert(hash@.subrange(from as int, i + 1).last() == hash@[i as int]);
            lemma_nibble_sum_bounds(hash@.subrange(from as int, i as int));
        }
        acc = acc + (b / 16) as u32 + (b % 16) as u32;
        i = i + 1;
    }
    acc
}

/// Reduce a nibble sum to one lowercase hex character.
fn reduce_value_to_hex_char(sum: u32) -> (r: char)
    ensures
        r == crate::hexstr::spec_hex_char(spec_reduce(sum as int) as u8),
{
    let mut x = sum;
    while x >= 16
        invariant
            spec_reduce(x as int) == spec_reduce(sum as int),
        decreases x,
    {
        proof {
            lemma_digit_sum_bounds(x as int);
        }
        x = digit_sum(x);
    }
    crate::hexstr::hex_char(x as u8)
}

/// The six-character hex marker of a transaction.
pub fn calculate_hex_transaction(t: &Transaction) -> (r: String)
    requires
        spec_tx_wf(t),
    ensures
        r@ == spec_hex_tx(*t),
{
    let hash = crate::transaction::transaction_hash(t);
    let mut s = String::new();
    crate::codec::push_char(&mut s, reduce_value_to_hex_char(nibble_sum_range(&hash, 0, 5)));
    crate::codec::push_char(&mut s, reduce_value_to_hex_char(nibble_sum_range(&hash, 5, 10)));
    crate::codec::push_char(&mut s, reduce_value_to_hex_char(nibble_sum_range(&hash, 10, 15)));
    crate::codec::push_char(&mut s, reduce_value_to_hex_char(nibble_sum_range(&hash, 15, 20)));
    crate::codec::push_char(&mut s, reduce_value_to_hex_char(nibble_sum_range(&hash, 20, 25)));
    crate::codec::push_char(&mut s, reduce_value_to_hex_char(nibble_sum_range(&hash, 25, 32)));
    proof {
        assert(s@ =~= spec_hex_tx(*t));
    }
    s
}

/// A wallet's color state.
#[derive(Clone, Debug)]
pub struct WalletColor {
    /// Wallet address.
    pub address: String,
    /// Current six-digit color.
    pub color: String,
    /// Unix timestamp of the last update.
    pub last_update: u64,
}

/// The color registry validators keep: one color per wallet address.
pub struct ColorRegistry {
    /// The stored colors, one entry per address.
    pub colors: Vec<WalletColor>,
}

/// A registry is well-formed when no address occurs twice and every
/// stored color is a valid six-hex-digit string.
pub open spec fn spec_registry_wf(r: &ColorRegistry) -> bool {
    &&& forall|i: int, j: int|
        0 <= i < j < r.colors@.len() ==> #[trigger] r.colors@[i].address@
            != #[trigger] r.colors@[j].address@
    &&& forall|i: int| 0 <= i < r.colors@.len() ==> spec_is_valid_hex(#[trigger] r.colors@[i].color@)
}

/// The stored color of an address, if any.
pub open spec fn spec_registry_lookup(s: Seq<WalletColor>, address: Seq<char>) -> Option<Seq<char>>
    decreases s.len(),
{
    if s.len() == 0 {
        None
    } else if s.last().address@ == address {
        Some(s.last().color@)
    } else {
        spec_registry_lookup(s.drop_last(), address)
    }
}

impl ColorRegistry {
    /// An empty registry.
    pub fn new() -> (r: Self)
        ensures
            r.colors@.len() == 0,
            spec_registry_wf(&r),
    {
        ColorRegistry { colors: Vec::new() }
    }

    /// The stored color of a wallet, if the wallet is known.
    pub fn get_wallet_color(&self, address: &String) -> (r: Option<String>)
        requires
            spec_registry_wf(self),
        ensures
            r matches Some(c) ==> spec_registry_lookup(self.colors@, address@) matches Some(sc)
                && c@ == sc && spec_is_valid_hex(c@),
            r is None <==> spec_registry_lookup(self.colors@, address@) is None,
    {
        let mut i: usize = 0;
        while i < self.colors.len()
            invariant
                i <= self.colors@.len(),
                spec_registry_wf(self),
                forall|j: int| 0 <= j < i ==> #[trigger] self.colors@[j].address@ != address@,
            decreases self.colors@.len() - i,
        {
            if self.colors[i].address.eq(address) {
                proof {
                    lemma_registry_lookup_found(self.colors@, address@, i as int);
                }
                return Some(self.colors[i].color.clone());
            }
            i = i + 1;
        }
        proof {
            lemma_registry_lookup_missing(self.colors@, address@);
        }
        None
    }

    /// Store a wallet's color, replacing any previous entry for the
    /// same address.  Only valid six-hex-digit colors can be stored:
    /// the registry's invariant keeps malformed colors out.
    pub fn update_wallet_color(&mut self, address: &String, color: &String)
        requires
            spec_registry_wf(old(self)),
            spec_is_valid_hex(color@),
        ensures
            spec_registry_wf(final(self)),
            spec_registry_lookup(final(self).colors@, address@) matches Some(c) && c == color@,
            forall|other: Seq<char>|
                other != address@ ==> #[trigger] spec_registry_lookup(final(self).colors@, other)
                    == spec_registry_lookup(old(self).colors@, other),
    {
        let now = crate::crypto::current_timestamp();
        let mut i: usize = 0;
        while i < self.colors.len()
            invariant
                i <= self.colors@.len(),
                spec_registry_wf(self),
                spec_is_valid_hex(color@),
                self.colors@ == old(self).colors@,
                forall|j: int| 0 <= j < i ==> #[trigger] self.colors@[j].address@ != address@,
            decreases self.colors@.len() - i,
        {
            if self.colors[i].address.eq(address) {
                let ghost before = self.colors@;
                proof {
                    assert(forall|k: int|
                        0 <= k < before.len() ==> spec_is_valid_hex(#[trigger] before[k].color@));
                }
                let entry = WalletColor {
                    address: address.clone(),
                    color: color.clone(),
                    last_update: now,
                };
                self.colors.set(i, entry);
                proof {
                    assert forall|i2: int, j2: int|
                        0 <= i2 < j2 < self.colors@.len() implies #[trigger] self.colors@[i2].address@
                        != #[trigger] self.colors@[j2].address@ by {
                        if i2 != i as int {
                            assert(self.colors@[i2] == before[i2]);
                        }
                        if j2 != i as int {
                            assert(self.colors@[j2] == before[j2]);
                        }
                    }
                    assert forall|i2: int|
                        0 <= i2 < self.colors@.len() implies spec_is_valid_hex(
                        #[trigger] self.colors@[i2].color@,
                    ) by {
                        if i2 == i as int {
                            assert(self.colors@[i2].color@ == color@);
                            assert(spec_is_valid_hex(self.colors@[i2].color@));
                        } else {
                            assert(self.colors@[i2] == before[i2]);
                            assert(spec_is_valid_hex(before[i2].color@));
                            assert(spec_is_valid_hex(self.colors@[i2].color@));
                        }
                    }
                    lemma_registry_update_lookup(before, self.colors@, address@, color@, i as int);
                }
                return ;
            }
            i = i + 1;
        }
        let ghost before = self.colors@;
        let entry = WalletColor { address: address.clone(), color: color.clone(), last_update: now };
        self.colors.push(entry);
        proof {
            assert(self.colors@.drop_last() =~= before);
            assert forall|i2: int, j2: int|
                0 <= i2 < j2 < self.colors@.len() implies #[trigger] self.colors@[i2].address@
                != #[trigger] self.colors@[j2].address@ by {
                if j2 < self.colors@.len() - 1 {
                    assert(self.colors@[i2] == before[i2]);
                    assert(self.colors@[j2] == before[j2]);
                } else {
                    assert(self.colors@[i2] == before[i2]);
                }
            }
            assert forall|i2: int|
                0 <= i2 < self.colors@.len() implies spec_is_valid_hex(
                #[trigger] self.colors@[i2].color@,
            ) by {
                if i2 < self.colors@.len() - 1 {
                    assert(self.colors@[i2] == before[i2]);
                }
            }
            assert forall|other: Seq<char>| other != address@ implies #[trigger] spec_registry_lookup(
                self.colors@,
                other,
            ) == spec_registry_lookup(before, other) by {}
        }
    }

    /// A uniformly random initial color for a new wallet.
    pub fn generate_initial_color() -> (r: String)
        ensures
            spec_is_valid_hex(r@),
    {
        let v = crate::crypto::random_u32() % 0x1000000;
        format_hex6(v)
    }

    /// Evolve the stored color of a transaction's sender by the
    /// transaction's hex marker and return the new color: the sender's
    /// color before the call (`000000` for an unknown wallet) plus the
    /// transaction hex, modulo 2^24.  Every other wallet's color is
    /// unchanged.
    pub fn apply_transaction_color(&mut self, t: &Transaction) -> (r: String)
        requires
            spec_registry_wf(old(self)),
            spec_tx_wf(t),
        ensures
            spec_registry_wf(final(self)),
            r@ == spec_format_hex6(
                spec_color_add(
                    spec_hex6_val(spec_wallet_color_or_default(old(self).colors@, t.sender@)),
                    spec_hex6_val(spec_hex_tx(*t)),
                ),
            ),
            spec_registry_lookup(final(self).colors@, t.sender@) matches Some(c) && c == r@,
            forall|other: Seq<char>|
                other != t.sender@ ==> #[trigger] spec_registry_lookup(final(self).colors@, other)
                    == spec_registry_lookup(old(self).colors@, other),
            spec_is_valid_hex(r@),
    {
        let current = match self.get_wallet_color(&t.sender) {
            Some(c) => c,
            None => format_hex6(0),
        };
        proof {
            assert(current@ == spec_wallet_color_or_default(self.colors@, t.sender@));
        }
        let hex_tx = calculate_hex_transaction(t);
        proof {
            lemma_hex_tx_valid(*t);
        }
        let new_color = match calculate_new_color(&current, &hex_tx) {
            Some(c) => c,
            None => {
                proof {
                    assert(false);
                }
                format_hex6(0)
            },
        };
        self.update_wallet_color(&t.sender, &new_color);
        new_color
    }
}

/// The color a wallet holds: its stored color, or `000000` for a
/// wallet the registry has not seen.
pub open spec fn spec_wallet_color_or_default(s: Seq<WalletColor>, address: Seq<char>) -> Seq<
    char,
> {
    match spec_registry_lookup(s, address) {
        Some(c) => c,
        None => spec_format_hex6(0),
    }
}

/// The transaction hex is always a valid color.
pub proof fn lemma_hex_tx_valid(t: Transaction)
    ensures
        spec_is_valid_hex(spec_hex_tx(t)),
{
    let h = spec_tx_hash(t);
    assert forall|i: int| 0 <= i < 6 implies spec_is_hex_digit(#[trigger] spec_hex_tx(t)[i]) by {
        lemma_reduce_digit(spec_nibble_sum(h.subrange(0, 5)));
        lemma_reduce_digit(spec_nibble_sum(h.subrange(5, 10)));
        lemma_reduce_digit(spec_nibble_sum(h.subrange(10, 15)));
        lemma_reduce_digit(spec_nibble_sum(h.subrange(15, 20)));
        lemma_reduce_digit(spec_nibble_sum(h.subrange(20, 25)));
        lemma_reduce_digit(spec_nibble_sum(h.subrange(25, 32)));
    }
}

/// Reducing a non-negative value yields a single hex digit, whose
/// character is a hex digit.
pub proof fn lemma_reduce_digit(v: int)
    ensures
        v >= 0 ==> 0 <= spec_reduce(v) < 16 && spec_is_hex_digit(
            crate::hexstr::spec_hex_char(spec_reduce(v) as u8),
        ),
    decreases v,
{
    if v >= 16 {
        lemma_digit_sum_bounds(v);
        lemma_reduce_digit(spec_digit_sum(v));
    }
}

/// A found entry is what lookup returns.
proof fn lemma_registry_lookup_found(s: Seq<WalletColor>, address: Seq<char>, i: int)
    requires
        0 <= i < s.len(),
        s[i].address@ == address,
        forall|j: int, k: int| 0 <= j < k < s.len() ==> #[trigger] s[j].address@ != #[trigger] s[k].address@,
    ensures
        spec_registry_lookup(s, address) matches Some(c) && c == s[i].color@,
    decreases s.len(),
{
    if i < s.len() - 1 {
        assert(s.last().address@ != address);
        assert(s.drop_last()[i] == s[i]);
        lemma_registry_lookup_found(s.drop_last(), address, i);
    }
}

/// An address in no entry is not found.
proof fn lemma_registry_lookup_missing(s: Seq<WalletColor>, address: Seq<char>)
    requires
        forall|j: int| 0 <= j < s.len() ==> #[trigger] s[j].address@ != address,
    ensures
        spec_registry_lookup(s, address) is None,
    decreases s.len(),
{
    if s.len() > 0 {
        lemma_registry_lookup_missing(s.drop_last(), address);
    }
}

/// Replacing the entry at `i` updates that address's lookup and leaves
/// every other address's lookup unchanged.
proof fn lemma_registry_update_lookup(
    before: Seq<WalletColor>,
    after: Seq<WalletColor>,
    address: Seq<char>,
    color: Seq<char>,
    i: int,
)
    requires
        0 <= i < before.len(),
        after.len() == before.len(),
        before[i].address@ == address,
        after[i].address@ == address,
        after[i].color@ == color,
        forall|j: int| 0 <= j < before.len() && j != i ==> #[trigger] after[j] == before[j],
        forall|j: int, k: int|
            0 <= j < k < after.len() ==> #[trigger] after[j].address@ != #[trigger] after[k].address@,
        forall|j: int| 0 <= j < before.len() && j != i ==> #[trigger] before[j].address@ != address,
    ensures
        spec_registry_lookup(after, address) matches Some(c) && c == color,
        forall|other: Seq<char>|
            other != address ==> #[trigger] spec_registry_lookup(after, other)
                == spec_registry_lookup(before, other),
    decreases before.len(),
{
    lemma_registry_lookup_found(after, address, i);
    assert forall|other: Seq<char>| other != address implies #[trigger] spec_registry_lookup(
        after,
        other,
    ) == spec_registry_lookup(before, other) by {
        lemma_registry_lookup_other(before, after, address, i, other);
    }
}

/// Helper: lookups of other addresses are unchanged by the update.
proof fn lemma_registry_lookup_other(
    before: Seq<WalletColor>,
    after: Seq<WalletColor>,
    address: Seq<char>,
    i: int,
    other: Seq<char>,
)
    requires
        0 <= i < before.len(),
        after.len() == before.len(),
        before[i].address@ == address,
        after[i].address@ == address,
        forall|j: int| 0 <= j < before.len() && j != i ==> #[trigger] after[j] == before[j],
        forall|j: int| 0 <= j < before.len() && j != i ==> #[trigger] before[j].address@ != address,
        other != address,
    ensures
        spec_registry_lookup(after, other) == spec_registry_lookup(before, other),
    decreases before.len(),
{
    if before.len() > 0 {
        if i == before.len() - 1 {
            assert(after.last().address@ == address);
            assert(before.last().address@ == address);
            assert(after.drop_last() =~= before.drop_last());
            lemma_registry_lookup_same(before.drop_last(), after.drop_last(), other);
        } else {
            assert(after.last() == before.last());
            if before.last().address@ == other {
            } else {
                assert(after.drop_last()[i] == after[i]);
                assert forall|j: int|
                    0 <= j < before.drop_last().len() && j != i implies #[trigger] after.drop_last()[j]
                    == before.drop_last()[j] by {
                    assert(after.drop_last()[j] == after[j]);
                    assert(before.drop_last()[j] == before[j]);
                }
                assert forall|j: int|
                    0 <= j < before.drop_last().len() && j != i implies #[trigger] before.drop_last()[j].address@
                    != address by {
                    assert(before.drop_last()[j] == before[j]);
                }
                lemma_registry_lookup_other(
                    before.drop_last(),
                    after.drop_last(),
                    address,
                    i,
                    other,
                );
            }
        }
    }
}

/// Equal sequences have equal lookups.
proof fn lemma_registry_lookup_same(a: Seq<WalletColor>, b: Seq<WalletColor>, address: Seq<char>)
    requires
        a == b,
    ensures
        spec_registry_lookup(a, address) == spec_registry_lookup(b, address),
{
}

/// The color transition is a pure function of its inputs: two calls on
/// equal colors and equal transaction hexes agree.
pub proof fn lemma_color_transition_pure(
    c1: String,
    c2: String,
    t1: String,
    t2: String,
    r1: Option<String>,
    r2: Option<String>,
)
    requires
        c1@ == c2@,
        t1@ == t2@,
        call_ensures(calculate_new_color, (&c1, &t1), r1),
        call_ensures(calculate_new_color, (&c2, &t2), r2),
    ensures
        r1 is Some <==> r2 is Some,
        r1 matches Some(s1) ==> r2 matches Some(s2) && s1@ == s2@,
{
}

} // verus!
