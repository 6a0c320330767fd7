//! Output settings (assembly syntax, byte formatting) and the rendering of
//! machine code in each byte format.
use vstd::prelude::*;

use crate::hexcodec::{hex_encode, hex_lower, upper_digit};
use crate::text::{append_chars, chars_of, join, string_of};

verus! {

/// Assembly syntax of the engines.
#[derive(Clone, Copy, Debug, PartialEq, Eq, Structural)]
pub enum AsmSyntax {
    Intel,
    Att,
}

/// How machine code is written out.
#[derive(Clone, Copy, Debug, PartialEq, Eq, Structural)]
pub enum HexFormat {
    Pretty,
    RawHex,
    RustVector,
    CStyleArray,
    StringLiteral,
}

// ---------------------------------------------------------------------------
// Names and cycling
// ---------------------------------------------------------------------------

pub open spec fn syntax_label(s: AsmSyntax) -> Seq<char> {
    match s {
        AsmSyntax::Intel => "Intel"@,
        AsmSyntax::Att => "AT&T"@,
    }
}

pub open spec fn syntax_value_name(s: AsmSyntax) -> Seq<char> {
    match s {
        AsmSyntax::Intel => "intel"@,
        AsmSyntax::Att => "att"@,
    }
}

pub open spec fn format_label(f: HexFormat) -> Seq<char> {
    match f {
        HexFormat::Pretty => "Pretty"@,
        HexFormat::RawHex => "Raw hex"@,
        HexFormat::StringLiteral => "String literal"@,
        HexFormat::RustVector => "Rust"@,
        HexFormat::CStyleArray => "C"@,
    }
}

pub open spec fn format_value_name(f: HexFormat) -> Seq<char> {
    match f {
        HexFormat::Pretty => "pretty"@,
        HexFormat::RawHex => "raw-hex"@,
        HexFormat::RustVector => "rust-vector"@,
        HexFormat::CStyleArray => "c-style-array"@,
        HexFormat::StringLiteral => "string-literal"@,
    }
}

/// The order in which the byte formats are cycled through.
pub open spec fn format_index(f: HexFormat) -> int {
    match f {
        HexFormat::Pretty => 0,
        HexFormat::RawHex => 1,
        HexFormat::RustVector => 2,
        HexFormat::CStyleArray => 3,
        HexFormat::StringLiteral => 4,
    }
}

/// The other syntax.
pub open spec fn other_syntax(s: AsmSyntax) -> AsmSyntax {
    match s {
        AsmSyntax::Intel => AsmSyntax::Att,
        AsmSyntax::Att => AsmSyntax::Intel,
    }
}

/// The following format in the cycle.
pub open spec fn next_format(f: HexFormat) -> HexFormat {
    match f {
        HexFormat::Pretty => HexFormat::RawHex,
        HexFormat::RawHex => HexFormat::RustVector,
        HexFormat::RustVector => HexFormat::CStyleArray,
        HexFormat::CStyleArray => HexFormat::StringLiteral,
        HexFormat::StringLiteral => HexFormat::Pretty,
    }
}

/// The preceding format in the cycle.
pub open spec fn prev_format(f: HexFormat) -> HexFormat {
    match f {
        HexFormat::Pretty => HexFormat::StringLiteral,
        HexFormat::RawHex => HexFormat::Pretty,
        HexFormat::RustVector => HexFormat::RawHex,
        HexFormat::CStyleArray => HexFormat::RustVector,
        HexFormat::StringLiteral => HexFormat::CStyleArray,
    }
}

impl AsmSyntax {
    /// The label shown in the interface.
    pub fn as_str(&self) -> (s: &'static str)
        ensures
            s@ == syntax_label(*self),
    {
        match self {
            Self::Intel => "Intel",
            Self::Att => "AT&T",
        }
    }

    /// The name used on the command line.
    pub fn value_name(&self) -> (s: &'static str)
        ensures
            s@ == syntax_value_name(*self),
    {
        match self {
            Self::Intel => "intel",
            Self::Att => "att",
        }
    }

    /// The other syntax.
    pub fn next(&self) -> (r: Self)
        ensures
            r == other_syntax(*self),
    {
        match self {
            Self::Intel => Self::Att,
            Self::Att => Self::Intel,
        }
    }
}

impl HexFormat {
    /// The label shown in the interface.
    pub fn as_str(&self) -> (s: &'static str)
        ensures
            s@ == format_label(*self),
    {
        match self {
            Self::Pretty => "Pretty",
            Self::RawHex => "Raw hex",
            Self::StringLiteral => "String literal",
            Self::RustVector => "Rust",
            Self::CStyleArray => "C",
        }
    }

    /// The name used on the command line.
    pub fn value_name(&self) -> (s: &'static str)
        ensures
            s@ == format_value_name(*self),
    {
        match self {
            Self::Pretty => "pretty",
            Self::RawHex => "raw-hex",
            Self::RustVector => "rust-vector",
            Self::CStyleArray => "c-style-array",
            Self::StringLiteral => "string-literal",
        }
    }

    /// The following format, wrapping from the last to the first.
    pub fn next(&self) -> (r: Self)
        ensures
            r == next_format(*self),
            format_index(r) == (format_index(*self) + 1) % 5,
    {
        match self {
            Self::Pretty => Self::RawHex,
            Self::RawHex => Self::RustVector,
            Self::RustVector => Self::CStyleArray,
            Self::CStyleArray => Self::StringLiteral,
            Self::StringLiteral => Self::Pretty,
        }
    }

    /// The preceding format, wrapping from the first to the last.
    pub fn last(&self) -> (r: Self)
        ensures
            r == prev_format(*self),
            format_index(r) == (format_index(*self) + 4) % 5,
    {
        match self {
            Self::Pretty => Self::StringLiteral,
            Self::RawHex => Self::Pretty,
            Self::RustVector => Self::RawHex,
            Self::CStyleArray => Self::RustVector,
            Self::StringLiteral => Self::CStyleArray,
        }
    }
}

// ---------------------------------------------------------------------------
// Byte rendering
// ---------------------------------------------------------------------------

/// Decimal digits of a number.
pub open spec fn decimal(n: nat) -> Seq<char>
    decreases n,
{
    if n < 10 {
        seq![(n + '0' as int) as char]
    } else {
        decimal(n / 10).push(((n % 10) + '0' as int) as char)
    }
}

/// One byte as two upper-case hex digits.
pub open spec fn byte_upper(b: u8) -> Seq<char> {
    seq![upper_digit(b as int / 16), upper_digit(b as int % 16)]
}

/// Each byte as `prefix` and two upper-case digits, joined by `sep`.
pub open spec fn join_hex(b: Seq<u8>, prefix: Seq<char>, sep: Seq<char>) -> Seq<char> {
    join(b.map_values(|x: u8| prefix + byte_upper(x)), sep)
}

/// The `0xNN, 0xNN` list of some bytes.
pub open spec fn pretty_list(b: Seq<u8>) -> Seq<char> {
    join_hex(b, "0x"@, ", "@)
}

/// Bytes rendered in a format.
pub open spec fn formatted(b: Seq<u8>, f: HexFormat) -> Seq<char> {
    match f {
        HexFormat::Pretty => pretty_list(b),
        HexFormat::RawHex => hex_lower(b),
        HexFormat::RustVector => "let data: [u8; "@ + decimal(b.len()) + "] = ["@ + pretty_list(b)
            + "];"@,
        HexFormat::CStyleArray => "unsigned char data["@ + decimal(b.len()) + "] = { "@
            + pretty_list(b) + " };"@,
        HexFormat::StringLiteral => "\""@ + pretty_list(b) + "\""@,
    }
}

/// An upper-case hex digit.
fn upper_hex_digit(n: u8) -> (c: char)
    requires
        n < 16,
    ensures
        c == upper_digit(n as int),
{
    if n < 10 {
        (n + 48) as char
    } else {
        (n + 55) as char
    }
}

/// Appends the decimal digits of `n`.
pub fn push_decimal(n: usize, out: &mut Vec<char>)
    ensures
        final(out)@ == old(out)@ + decimal(n as nat),
    decreases n,
{
    if n >= 10 {
        push_decimal(n / 10, out);
    }
    let d = (n % 10) as u8;
    out.push((d + 48) as char);
    proof {
        if n >= 10 {
            assert(decimal(n as nat) == decimal((n / 10) as nat).push(((n % 10) + '0' as int) as char));
        }
    }
}

/// Appends `prefix` and the two upper-case hex digits of each byte, the
/// bytes separated by `sep`.
fn push_hex_list(bytes: &[u8], prefix: &[char], sep: &[char], out: &mut Vec<char>)
    ensures
        final(out)@ == old(out)@ + join_hex(bytes@, prefix@, sep@),
{
    let ghost parts = bytes@.map_values(|x: u8| prefix@ + byte_upper(x));
    let ghost start = out@;
    let mut i: usize = 0;
    while i < bytes.len()
        invariant
            i <= bytes.len(),
            parts == bytes@.map_values(|x: u8| prefix@ + byte_upper(x)),
            out@ == start + join(parts.take(i as int), sep@),
        decreases bytes.len() - i,
    {
        let ghost before = out@;
        if i > 0 {
            append_chars(out, sep);
        }
        append_chars(out, prefix);
        let b = bytes[i];
        out.push(upper_hex_digit(b / 16));
        out.push(upper_hex_digit(b % 16));
        proof {
            assert(parts.take(i + 1).drop_last() == parts.take(i as int));
            assert(parts.take(i + 1).last() == prefix@ + byte_upper(b));
            if i == 0 {
                assert(join(parts.take(1), sep@) == parts[0]);
                assert(out@ == start + (prefix@ + byte_upper(b)));
            } else {
                assert(out@ == before + sep@ + (prefix@ + byte_upper(b)));
            }
        }
        i = i + 1;
    }
    assert(parts.take(bytes.len() as int) == parts);
}

/// Each byte as `prefix` followed by two upper-case hex digits, joined by `sep`.
pub fn join_hex_bytes(bytes: &[u8], prefix: &str, sep: &str) -> (r: String)
    ensures
        r@ == join_hex(bytes@, prefix@, sep@),
{
    let p = chars_of(prefix);
    let s = chars_of(sep);
    let mut out: Vec<char> = Vec::new();
    push_hex_list(bytes, &p, &s, &mut out);
    assert(out@ == Seq::<char>::empty() + join_hex(bytes@, prefix@, sep@));
    string_of(&out)
}

/// Renders machine code in the chosen format: a `0xNN, ..` list, raw
/// lower-case hex, a Rust array declaration, a C array declaration, or a
/// quoted list.
pub fn format_bytes(b: &[u8], format: &HexFormat) -> (r: String)
    ensures
        r@ == formatted(b@, *format),
{
    match format {
        HexFormat::RawHex => hex_encode(b),
        _ => {
            let px = chars_of("0x");
            let sep = chars_of(", ");
            let mut out: Vec<char> = Vec::new();
            let ghost list = pretty_list(b@);
            match format {
                HexFormat::Pretty => {
                    push_hex_list(b, &px, &sep, &mut out);
                },
                HexFormat::RustVector => {
                    append_chars(&mut out, &chars_of("let data: [u8; "));
                    push_decimal(b.len(), &mut out);
                    append_chars(&mut out, &chars_of("] = ["));
                    push_hex_list(b, &px, &sep, &mut out);
                    append_chars(&mut out, &chars_of("];"));
                },
                HexFormat::CStyleArray => {
                    append_chars(&mut out, &chars_of("unsigned char data["));
                    push_decimal(b.len(), &mut out);
                    append_chars(&mut out, &chars_of("] = { "));
                    push_hex_list(b, &px, &sep, &mut out);
                    append_chars(&mut out, &chars_of(" };"));
                },
                _ => {
                    append_chars(&mut out, &chars_of("\""));
                    push_hex_list(b, &px, &sep, &mut out);
                    append_chars(&mut out, &chars_of("\""));
                },
            }
            assert(out@ == formatted(b@, *format));
            string_of(&out)
        },
    }
}

} // verus!
