//! Hexadecimal text: the model of hex digits, and the calls into the `hex` crate.
use vstd::prelude::*;

verus! {

/// `0-9`, `a-f` or `A-F`.
pub open spec fn is_hex_digit(c: char) -> bool {
    ('0' <= c && c <= '9') || ('a' <= c && c <= 'f') || ('A' <= c && c <= 'F')
}

/// The value of a hex digit.
pub open spec fn hex_val(c: char) -> int {
    if '0' <= c && c <= '9' {
        c as int - '0' as int
    } else if 'a' <= c && c <= 'f' {
        c as int - 'a' as int + 10
    } else {
        c as int - 'A' as int + 10
    }
}

/// Text that `hex::decode` accepts: an even number of hex digits.
pub open spec fn is_hex_text(s: Seq<char>) -> bool {
    s.len() % 2 == 0 && forall|i: int| 0 <= i < s.len() ==> is_hex_digit(#[trigger] s[i])
}

/// The bytes that hex text denotes, two digits per byte, high digit first.
pub open spec fn hex_bytes(s: Seq<char>) -> Seq<u8> {
    Seq::new(s.len() / 2, |i: int| (hex_val(s[2 * i]) * 16 + hex_val(s[2 * i + 1])) as u8)
}

/// The lower-case digit of a value below 16.
pub open spec fn lower_digit(n: int) -> char {
    if n < 10 {
        (n + '0' as int) as char
    } else {
        (n - 10 + 'a' as int) as char
    }
}

/// The upper-case digit of a value below 16.
pub open spec fn upper_digit(n: int) -> char {
    if n < 10 {
        (n + '0' as int) as char
    } else {
        (n - 10 + 'A' as int) as char
    }
}

/// Lower-case hex text of some bytes, two digits per byte, high digit first.
pub open spec fn hex_lower(b: Seq<u8>) -> Seq<char> {
    Seq::new(
        2 * b.len(),
        |i: int|
            if i % 2 == 0 {
                lower_digit(b[i / 2] as int / 16)
            } else {
                lower_digit(b[i / 2] as int % 16)
            },
    )
}

/// Upper-case hex text of some bytes, two digits per byte, high digit first.
pub open spec fn hex_upper(b: Seq<u8>) -> Seq<char> {
    Seq::new(
        2 * b.len(),
        |i: int|
            if i % 2 == 0 {
                upper_digit(b[i / 2] as int / 16)
            } else {
                upper_digit(b[i / 2] as int % 16)
            },
    )
}

#[verifier::external_type_specification]
#[verifier::external_body]
pub struct ExFromHexError(hex::FromHexError);

/// `hex::decode` on the bytes of `s`. It succeeds exactly on an even number of
/// hex digits (a non-ASCII character yields bytes above 0x7F, which are never
/// digits), and then yields one byte per pair of digits, high digit first.
#[verifier::external_body]
pub(crate) fn hex_decode(s: &str) -> (r: Result<Vec<u8>, hex::FromHexError>)
    ensures
        r is Ok <==> is_hex_text(s@),
        r matches Ok(v) ==> v@ == hex_bytes(s@),
{
    hex::decode(s)
}

/// `hex::encode`: lower-case hex text of the bytes, high digit first.
#[verifier::external_body]
pub(crate) fn hex_encode(data: &[u8]) -> (r: String)
    ensures
        r@ == hex_lower(data@),
{
    hex::encode(data)
}

/// The bytes that `s` denotes as hex text, if it is hex text.
pub fn decode_hex(s: &str) -> (r: Option<Vec<u8>>)
    ensures
        r is Some <==> is_hex_text(s@),
        r matches Some(v) ==> v@ == hex_bytes(s@),
{
    match hex_decode(s) {
        Ok(v) => Some(v),
        Err(_) => None,
    }
}

} // verus!
