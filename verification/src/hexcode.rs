//! Lowercase hexadecimal rendering of byte sequences: its specification,
//! the facts the key derivation needs, and a trusted wrapper over the
//! encoder of the `hex` crate.

use vstd::prelude::*;

verus! {

/// ASCII '0'
pub const DIGIT_ZERO: u8 = 48;

/// ASCII '9'
pub const DIGIT_NINE: u8 = 57;

/// ASCII 'a'
pub const LOWER_A: u8 = 97;

/// ASCII 'f'
pub const LOWER_F: u8 = 102;

/// True of the bytes that can appear in a lowercase hexadecimal rendering.
pub open spec fn is_hex_digit_byte(b: u8) -> bool {
    (DIGIT_ZERO <= b && b <= DIGIT_NINE) || (LOWER_A <= b && b <= LOWER_F)
}

/// The lowercase hexadecimal digit for a nibble value below sixteen.
pub open spec fn hex_digit_char(n: u8) -> u8 {
    if n < 10 {
        (DIGIT_ZERO + n) as u8
    } else {
        (LOWER_A + (n - 10)) as u8
    }
}

/// The two lowercase hexadecimal digits of one byte, high nibble first.
pub open spec fn hex_pair(b: u8) -> Seq<u8> {
    seq![hex_digit_char(b / 16), hex_digit_char(b % 16)]
}

/// The lowercase hexadecimal rendering of a byte sequence: one pair of
/// digits per byte, in input order.
pub open spec fn hex_of(s: Seq<u8>) -> Seq<u8>
    decreases s.len(),
{
    if s.len() == 0 {
        Seq::<u8>::empty()
    } else {
        hex_pair(s[0]) + hex_of(s.skip(1))
    }
}

pub proof fn lemma_hex_of_len(s: Seq<u8>)
    ensures
        hex_of(s).len() == 2 * s.len(),
    decreases s.len(),
{
    if s.len() != 0 {
        lemma_hex_of_len(s.skip(1));
    }
}

pub proof fn lemma_hex_of_index(s: Seq<u8>, i: int)
    requires
        0 <= i < s.len(),
    ensures
        hex_of(s).len() == 2 * s.len(),
        hex_of(s)[2 * i] == hex_digit_char(s[i] / 16),
        hex_of(s)[2 * i + 1] == hex_digit_char(s[i] % 16),
    decreases i,
{
    lemma_hex_of_len(s);
    if i == 0 {
        lemma_hex_of_len(s.skip(1));
    } else {
        lemma_hex_of_index(s.skip(1), i - 1);
    }
}

pub proof fn lemma_hex_digit_char_props(n1: u8, n2: u8)
    requires
        n1 < 16,
        n2 < 16,
    ensures
        is_hex_digit_byte(hex_digit_char(n1)),
        n1 != n2 ==> hex_digit_char(n1) != hex_digit_char(n2),
{
}

pub proof fn lemma_hex_of_is_hex(s: Seq<u8>, j: int)
    requires
        0 <= j < hex_of(s).len(),
    ensures
        is_hex_digit_byte(hex_of(s)[j]),
{
    lemma_hex_of_len(s);
    let i = j / 2;
    assert(j == 2 * i || j == 2 * i + 1);
    lemma_hex_of_index(s, i);
    lemma_hex_digit_char_props(s[i] / 16, s[i] % 16);
    lemma_hex_digit_char_props(s[i] % 16, s[i] / 16);
}

/// Byte sequences of equal length with different content render to
/// different hexadecimal strings.
pub proof fn lemma_hex_of_injective(s1: Seq<u8>, s2: Seq<u8>)
    requires
        s1.len() == s2.len(),
        s1 != s2,
    ensures
        hex_of(s1) != hex_of(s2),
{
    if forall|i: int| 0 <= i < s1.len() ==> s1[i] == s2[i] {
        assert(s1 =~= s2);
    }
    let i = choose|i: int| 0 <= i < s1.len() && s1[i] != s2[i];
    let b1 = s1[i];
    let b2 = s2[i];
    lemma_hex_of_index(s1, i);
    lemma_hex_of_index(s2, i);
    if b1 / 16 != b2 / 16 {
        lemma_hex_digit_char_props(b1 / 16, b2 / 16);
        assert(hex_of(s1)[2 * i] != hex_of(s2)[2 * i]);
    } else {
        assert(b1 % 16 != b2 % 16);
        lemma_hex_digit_char_props(b1 % 16, b2 % 16);
        assert(hex_of(s1)[2 * i + 1] != hex_of(s2)[2 * i + 1]);
    }
}

/// Relies on `hex::encode`: it renders the input as lowercase hexadecimal,
/// two digits per byte, in input order.
#[verifier::external_body]
pub(crate) fn hex_encode_bytes(data: &Vec<u8>) -> (r: Vec<u8>)
    ensures
        r@ == hex_of(data@),
{
    hex::encode(data.as_slice()).into_bytes()
}

} // verus!
