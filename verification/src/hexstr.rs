//! Lowercase hexadecimal rendering of byte strings.

use vstd::prelude::*;
use vstd::utf8::*;

verus! {

/// The lowercase hex digit of a value below 16.
pub open spec fn spec_hex_char(n: u8) -> char
    recommends
        n < 16,
{
    if n == 0 {
        '0'
    } else if n == 1 {
        '1'
    } else if n == 2 {
        '2'
    } else if n == 3 {
        '3'
    } else if n == 4 {
        '4'
    } else if n == 5 {
        '5'
    } else if n == 6 {
        '6'
    } else if n == 7 {
        '7'
    } else if n == 8 {
        '8'
    } else if n == 9 {
        '9'
    } else if n == 10 {
        'a'
    } else if n == 11 {
        'b'
    } else if n == 12 {
        'c'
    } else if n == 13 {
        'd'
    } else if n == 14 {
        'e'
    } else {
        'f'
    }
}

/// The lowercase hex digit of a value below 16.
pub fn hex_char(n: u8) -> (r: char)
    requires
        n < 16,
    ensures
        r == spec_hex_char(n),
{
    if n == 0 {
        '0'
    } else if n == 1 {
        '1'
    } else if n == 2 {
        '2'
    } else if n == 3 {
        '3'
    } else if n == 4 {
        '4'
    } else if n == 5 {
        '5'
    } else if n == 6 {
        '6'
    } else if n == 7 {
        '7'
    } else if n == 8 {
        '8'
    } else if n == 9 {
        '9'
    } else if n == 10 {
        'a'
    } else if n == 11 {
        'b'
    } else if n == 12 {
        'c'
    } else if n == 13 {
        'd'
    } else if n == 14 {
        'e'
    } else {
        'f'
    }
}

/// The lowercase hex rendering of a byte string: two digits per byte,
/// high nibble first.
pub open spec fn spec_to_hex(b: Seq<u8>) -> Seq<char>
    decreases b.len(),
{
    if b.len() == 0 {
        Seq::empty()
    } else {
        spec_to_hex(b.drop_last()) + seq![
            spec_hex_char(b.last() / 16),
            spec_hex_char(b.last() % 16),
        ]
    }
}

/// A hex rendering is ASCII and twice as long as its input.
pub proof fn lemma_to_hex_ascii(b: Seq<u8>)
    ensures
        spec_to_hex(b).len() == 2 * b.len(),
        is_ascii_chars(spec_to_hex(b)),
    decreases b.len(),
{
    if b.len() > 0 {
        lemma_to_hex_ascii(b.drop_last());
        assert forall|i: int| 0 <= i < spec_to_hex(b).len() implies '\0' <= #[trigger] spec_to_hex(
            b,
        )[i] <= '\u{7f}' by {
            if i < spec_to_hex(b.drop_last()).len() {
                assert(spec_to_hex(b)[i] == spec_to_hex(b.drop_last())[i]);
            }
        }
    }
}

/// Render a byte string as lowercase hex.
pub fn to_hex_string(b: &Vec<u8>) -> (r: String)
    ensures
        r@ == spec_to_hex(b@),
        is_ascii_chars(r@),
{
    let mut s = String::new();
    let mut i: usize = 0;
    proof {
        assert(b@.take(0) =~= Seq::<u8>::empty());
    }
    while i < b.len()
        invariant
            i <= b@.len(),
            s@ == spec_to_hex(b@.take(i as int)),
        decreases b@.len() - i,
    {
        let byte = b[i];
        crate::codec::push_char(&mut s, hex_char(byte / 16));
        crate::codec::push_char(&mut s, hex_char(byte % 16));
        proof {
            assert(b@.take(i + 1).drop_last() =~= b@.take(i as int));
            assert(b@.take(i + 1).last() == b@[i as int]);
            assert(s@ =~= spec_to_hex(b@.take(i + 1)));
        }
        i = i + 1;
    }
    proof {
        assert(b@.take(b@.len() as int) =~= b@);
        lemma_to_hex_ascii(b@);
    }
    s
}

/// Compare two byte strings.
pub fn bytes_eq(a: &Vec<u8>, b: &Vec<u8>) -> (r: bool)
    ensures
        r == (a@ == b@),
{
    if a.len() != b.len() {
        return false;
    }
    let mut i: usize = 0;
    while i < a.len()
        invariant
            i <= a@.len(),
            a@.len() == b@.len(),
            forall|j: int| 0 <= j < i ==> a@[j] == b@[j],
        decreases a@.len() - i,
    {
        if a[i] != b[i] {
            return false;
        }
        i = i + 1;
    }
    proof {
        assert(a@ =~= b@);
    }
    true
}

} // verus!
