//! Hexadecimal text to bytes, through the `hex` crate.
use vstd::prelude::*;

verus! {

/// Whether `c` is a hexadecimal digit, in either case.
pub open spec fn is_hex_digit(c: char) -> bool {
    ('0' <= c && c <= '9') || ('a' <= c && c <= 'f') || ('A' <= c && c <= 'F')
}

/// The value of a hexadecimal digit.
pub open spec fn hex_digit_value(c: char) -> nat {
    if '0' <= c && c <= '9' {
        (c as nat - '0' as nat) as nat
    } else if 'a' <= c && c <= 'f' {
        (c as nat - 'a' as nat + 10) as nat
    } else {
        (c as nat - 'A' as nat + 10) as nat
    }
}

/// Whether `s` is a hexadecimal encoding: an even number of digits.
pub open spec fn is_hex_text(s: Seq<char>) -> bool {
    s.len() % 2 == 0 && forall|i: int| 0 <= i < s.len() ==> is_hex_digit(#[trigger] s[i])
}

/// The bytes that hexadecimal text encodes, two digits per byte, the first
/// digit of each pair the high one.
pub open spec fn hex_bytes(s: Seq<char>) -> Seq<u8> {
    Seq::new(
        s.len() / 2,
        |i: int| (hex_digit_value(s[2 * i]) * 16 + hex_digit_value(s[2 * i + 1])) as u8,
    )
}

/// Whether every character of `s` from position `i` on is a hexadecimal digit.
pub open spec fn hex_digits_from(s: Seq<char>, i: int) -> bool
    decreases s.len() - i,
{
    if i < 0 || i >= s.len() {
        true
    } else {
        is_hex_digit(s[i]) && hex_digits_from(s, i + 1)
    }
}

/// Checking the digits one position at a time establishes them all.
pub proof fn lemma_hex_digits_from(s: Seq<char>, i: int)
    requires
        0 <= i,
        hex_digits_from(s, i),
    ensures
        forall|j: int| i <= j < s.len() ==> is_hex_digit(#[trigger] s[j]),
    decreases s.len() - i,
{
    if i < s.len() {
        lemma_hex_digits_from(s, i + 1);
    }
}

#[verifier::external_type_specification]
#[verifier::external_body]
pub struct ExFromHexError(hex::FromHexError);

/// Relies on `hex::decode`: it succeeds exactly on an even number of
/// hexadecimal digits (of either case) and then returns the bytes they encode.
#[verifier::external_body]
pub(crate) fn decode_hex(text: &str) -> (r: Result<Vec<u8>, hex::FromHexError>)
    ensures
        r is Ok <==> is_hex_text(text@),
        r is Ok ==> r->Ok_0@ == hex_bytes(text@),
{
    hex::decode(text)
}

} // verus!
