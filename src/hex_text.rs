//! Hexadecimal text: digits, byte strings, and the hex crate's codec.

use vstd::prelude::*;

verus! {

/// Value of a hexadecimal digit character, if it is one.
pub open spec fn hex_digit_value(c: char) -> Option<nat> {
    if '0' <= c <= '9' {
        Some((c as nat - '0' as nat) as nat)
    } else if 'a' <= c <= 'f' {
        Some((c as nat - 'a' as nat + 10) as nat)
    } else if 'A' <= c <= 'F' {
        Some((c as nat - 'A' as nat + 10) as nat)
    } else {
        None
    }
}

pub open spec fn all_hex_digits(s: Seq<char>) -> bool {
    forall|i: int| 0 <= i < s.len() ==> #[trigger] hex_digit_value(s[i]) is Some
}

/// The bytes that hex text of even length spells, two digits per byte, high
/// digit first; none for odd length or a character that is no hex digit.
pub open spec fn hex_bytes_of(s: Seq<char>) -> Option<Seq<u8>> {
    if s.len() % 2 == 0 && all_hex_digits(s) {
        Some(
            Seq::new(
                s.len() / 2,
                |i: int|
                    (hex_digit_value(s[2 * i])->0 * 16 + hex_digit_value(s[2 * i + 1])->0) as u8,
            ),
        )
    } else {
        None
    }
}

/// Lowercase hex digit for a value below 16.
pub open spec fn lower_hex_char(d: nat) -> char {
    seq!['0', '1', '2', '3', '4', '5', '6', '7', '8', '9', 'a', 'b', 'c', 'd', 'e', 'f'][d as int]
}

/// Lowercase hex text of a byte string: two digits per byte, high digit first.
pub open spec fn hex_text_of(b: Seq<u8>) -> Seq<char> {
    Seq::new(
        2 * b.len(),
        |i: int|
            if i % 2 == 0 {
                lower_hex_char((b[i / 2] / 16) as nat)
            } else {
                lower_hex_char((b[i / 2] % 16) as nat)
            },
    )
}

/// Relies on hex::decode: bytes from pairs of hex digits of either case;
/// an error on odd length or on any other character.
#[verifier::external_body]
pub(crate) fn hex_decode(s: &str) -> (r: Option<Vec<u8>>)
    ensures
        match hex_bytes_of(s@) {
            Some(b) => r is Some && r->0@ == b,
            None => r is None,
        },
{
    hex::decode(s).ok()
}

/// Relies on hex::encode: two lowercase hex digits per byte.
#[verifier::external_body]
pub(crate) fn hex_encode(b: &Vec<u8>) -> (r: String)
    ensures
        r@ == hex_text_of(b@),
{
    hex::encode(b)
}

} // verus!
