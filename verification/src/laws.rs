//! Laws that span several functions of the library.
use vstd::prelude::*;

use crate::hexcodec::{hex_bytes, hex_lower, hex_upper, hex_val, is_hex_digit, is_hex_text, lower_digit, upper_digit};
use crate::input::checks::{
    classify, extract_payload, is_separator, let_prefix, normalize_hex, normalize_line,
    normalize_lines, strip_hex_noise, unsigned_char_prefix, InputType,
};
use crate::gui::app::{config_after, effect_of, Config, KeyCommand};
use crate::input::assembler::produces_code;
use crate::input::disassmbler::{line_address, line_hex, line_size, total_size};
use crate::output::{
    byte_upper, decimal, formatted, next_format, other_syntax, pretty_list, prev_format, AsmSyntax,
    HexFormat,
};
use crate::text::{
    contains_seq, find_char, is_ws, join, lemma_find_char_at, lemma_rfind_char_at, lines,
    starts_with, strip_cr, trim, trim_end, trim_start,
};

verus! {

// ---------------------------------------------------------------------------
// Digits
// ---------------------------------------------------------------------------

proof fn lemma_digits(n: int)
    requires
        0 <= n < 16,
    ensures
        is_hex_digit(upper_digit(n)),
        hex_val(upper_digit(n)) == n,
        is_hex_digit(lower_digit(n)),
        hex_val(lower_digit(n)) == n,
        upper_digit(n) != 'x' && upper_digit(n) != 'X',
        !is_separator(upper_digit(n)),
        !is_separator(lower_digit(n)),
        lower_digit(n) != 'x' && lower_digit(n) != 'X',
{
}

proof fn lemma_byte_split(b: u8)
    ensures
        0 <= b as int / 16 < 16,
        0 <= b as int % 16 < 16,
        (b as int / 16 * 16 + b as int % 16) as u8 == b,
{
}

/// Upper-case hex text of some bytes decodes to those bytes.
pub proof fn lemma_hex_upper_decodes(b: Seq<u8>)
    ensures
        is_hex_text(hex_upper(b)),
        hex_bytes(hex_upper(b)) == b,
{
    let s = hex_upper(b);
    assert forall|i: int| 0 <= i < s.len() implies is_hex_digit(#[trigger] s[i]) by {
        lemma_byte_split(b[i / 2]);
        lemma_digits(b[i / 2] as int / 16);
        lemma_digits(b[i / 2] as int % 16);
    }
    assert forall|i: int| 0 <= i < b.len() implies #[trigger] hex_bytes(s)[i] == b[i] by {
        lemma_byte_split(b[i]);
        lemma_digits(b[i] as int / 16);
        lemma_digits(b[i] as int % 16);
        assert(s[2 * i] == upper_digit(b[i] as int / 16));
        assert(s[2 * i + 1] == upper_digit(b[i] as int % 16));
    }
    assert(hex_bytes(s) =~= b);
}

/// Lower-case hex text of some bytes decodes to those bytes.
pub proof fn lemma_hex_lower_decodes(b: Seq<u8>)
    ensures
        is_hex_text(hex_lower(b)),
        hex_bytes(hex_lower(b)) == b,
{
    let s = hex_lower(b);
    assert forall|i: int| 0 <= i < s.len() implies is_hex_digit(#[trigger] s[i]) by {
        lemma_byte_split(b[i / 2]);
        lemma_digits(b[i / 2] as int / 16);
        lemma_digits(b[i / 2] as int % 16);
    }
    assert forall|i: int| 0 <= i < b.len() implies #[trigger] hex_bytes(s)[i] == b[i] by {
        lemma_byte_split(b[i]);
        lemma_digits(b[i] as int / 16);
        lemma_digits(b[i] as int % 16);
        assert(s[2 * i] == lower_digit(b[i] as int / 16));
        assert(s[2 * i + 1] == lower_digit(b[i] as int % 16));
    }
    assert(hex_bytes(s) =~= b);
}

// ---------------------------------------------------------------------------
// Stripping
// ---------------------------------------------------------------------------

/// Stripping works piecewise where no `0x`/`\x` prefix straddles the cut.
proof fn lemma_strip_append(x: Seq<char>, y: Seq<char>)
    requires
        x.len() == 0 || !((x.last() == '0' || x.last() == '\\') && y.len() > 0 && (y[0] == 'x'
            || y[0] == 'X')),
    ensures
        strip_hex_noise(x + y) == strip_hex_noise(x) + strip_hex_noise(y),
    decreases x.len(),
{
    if x.len() == 0 {
        assert(x + y == y);
    } else {
        let s = x + y;
        if s.len() >= 2 && (s[0] == '0' || s[0] == '\\') && (s[1] == 'x' || s[1] == 'X') {
            if x.len() >= 2 {
                assert(s.skip(2) == x.skip(2) + y);
                lemma_strip_append(x.skip(2), y);
            } else {
                assert(s[1] == y[0]);
            }
        } else {
            assert(s.skip(1) == x.skip(1) + y);
            lemma_strip_append(x.skip(1), y);
            if x.len() >= 2 {
                assert(x[1] == s[1]);
            }
        }
    }
}

/// Stripping keeps text made only of hex digits.
proof fn lemma_strip_digits(s: Seq<char>)
    requires
        forall|i: int| 0 <= i < s.len() ==> is_hex_digit(#[trigger] s[i]),
    ensures
        strip_hex_noise(s) == s,
    decreases s.len(),
{
    if s.len() > 0 {
        assert(is_hex_digit(s[0]));
        if s.len() >= 2 {
            assert(is_hex_digit(s[1]));
        }
        lemma_strip_digits(s.skip(1));
        assert(seq![s[0]] + s.skip(1) == s);
    }
}

proof fn lemma_strip_piece(b: u8)
    ensures
        strip_hex_noise("0x"@ + byte_upper(b)) == byte_upper(b),
{
    reveal_strlit("0x");
    lemma_byte_split(b);
    lemma_digits(b as int / 16);
    lemma_digits(b as int % 16);
    let p = "0x"@ + byte_upper(b);
    assert(p.skip(2) == byte_upper(b));
    lemma_strip_digits(byte_upper(b));
}

proof fn lemma_strip_sep()
    ensures
        strip_hex_noise(", "@) == Seq::<char>::empty(),
{
    reveal_strlit(", ");
    let s = ", "@;
    assert(s.skip(1).skip(1) == Seq::<char>::empty());
    assert(strip_hex_noise(s.skip(1)) == strip_hex_noise(s.skip(1).skip(1)));
}

/// The characters that a `0xNN, ..` list is made of.
pub open spec fn list_char(c: char) -> bool {
    c == '0' || c == 'x' || c == ',' || c == ' ' || is_hex_digit(c)
}

/// A `0xNN, ..` list strips to the upper-case hex text of its bytes, begins
/// with `0` and ends with a hex digit (unless empty), and is made of list
/// characters only.
proof fn lemma_pretty(b: Seq<u8>)
    ensures
        strip_hex_noise(pretty_list(b)) == hex_upper(b),
        forall|i: int| 0 <= i < pretty_list(b).len() ==> list_char(#[trigger] pretty_list(b)[i]),
        b.len() > 0 ==> pretty_list(b).len() > 0 && pretty_list(b)[0] == '0' && is_hex_digit(
            pretty_list(b).last(),
        ),
    decreases b.len(),
{
    reveal_strlit("0x");
    reveal_strlit(", ");
    let f = |x: u8| "0x"@ + byte_upper(x);
    let parts = b.map_values(f);
    if b.len() == 0 {
        assert(parts.len() == 0);
        assert(hex_upper(b) =~= Seq::<char>::empty());
    } else {
        let last = b.last();
        lemma_byte_split(last);
        lemma_digits(last as int / 16);
        lemma_digits(last as int % 16);
        let piece = "0x"@ + byte_upper(last);
        assert(parts.last() == piece);
        lemma_strip_piece(last);
        assert forall|i: int| 0 <= i < piece.len() implies list_char(#[trigger] piece[i]) by {}
        if b.len() == 1 {
            assert(pretty_list(b) == piece);
            assert(hex_upper(b) =~= byte_upper(last));
        } else {
            let rest = b.drop_last();
            assert(parts.drop_last() == rest.map_values(f));
            lemma_pretty(rest);
            let a = pretty_list(rest);
            assert(pretty_list(b) == a + ", "@ + piece);
            lemma_strip_append(a, ", "@);
            lemma_strip_append(a + ", "@, piece);
            lemma_strip_sep();
            assert(hex_upper(b) =~= hex_upper(rest) + byte_upper(last));
            assert(a + ", "@ + Seq::<char>::empty() == a + ", "@);
            let whole = a + ", "@ + piece;
            assert forall|i: int| 0 <= i < whole.len() implies list_char(#[trigger] whole[i]) by {
                if i < a.len() {
                    assert(whole[i] == a[i]);
                } else if i < a.len() + 2 {
                } else {
                    assert(whole[i] == piece[i - a.len() - 2]);
                }
            }
            assert(whole[0] == a[0]);
        }
    }
}

// ---------------------------------------------------------------------------
// Single-line texts
// ---------------------------------------------------------------------------

/// A non-empty text without newline is one line.
proof fn lemma_one_line(s: Seq<char>)
    requires
        s.len() > 0,
        forall|i: int| 0 <= i < s.len() ==> s[i] != '\n',
    ensures
        normalize_hex(s) == normalize_line(s),
{
    crate::text::lemma_find_char_none(s, '\n');
    assert(lines(s) == seq![s]);
    assert(seq![s].drop_last() == Seq::<Seq<char>>::empty());
    assert(seq![s].last() == s);
    assert(normalize_lines(Seq::<Seq<char>>::empty()) == Seq::<char>::empty());
    assert(Seq::<char>::empty() + normalize_line(s) =~= normalize_line(s));
    assert(normalize_lines(seq![s]) == normalize_line(s));
}

/// A text that neither begins nor ends with whitespace is its own trim.
proof fn lemma_trim_noop(s: Seq<char>)
    requires
        s.len() > 0,
        !is_ws(s[0]),
        !is_ws(s.last()),
    ensures
        trim(s) == s,
{
}

/// The characters of a decimal number are digits.
proof fn lemma_decimal_digits(n: nat)
    ensures
        decimal(n).len() > 0,
        forall|i: int| 0 <= i < decimal(n).len() ==> '0' <= #[trigger] decimal(n)[i] <= '9',
    decreases n,
{
    if n >= 10 {
        lemma_decimal_digits(n / 10);
    }
}

/// What is left of a format's payload once stripped: the upper-case hex
/// text of the bytes.
proof fn lemma_strip_framed(b: Seq<u8>, left: Seq<char>, right: Seq<char>)
    requires
        forall|i: int| 0 <= i < left.len() ==> is_separator(#[trigger] left[i]),
        forall|i: int| 0 <= i < right.len() ==> is_separator(#[trigger] right[i]),
    ensures
        strip_hex_noise(left + pretty_list(b) + right) == hex_upper(b),
{
    lemma_pretty(b);
    let p = pretty_list(b);
    lemma_strip_separators(left);
    lemma_strip_separators(right);
    lemma_strip_append(left, p);
    lemma_strip_append(left + p, right);
    assert(Seq::<char>::empty() + hex_upper(b) + Seq::<char>::empty() =~= hex_upper(b));
}

/// Separators strip to nothing.
proof fn lemma_strip_separators(s: Seq<char>)
    requires
        forall|i: int| 0 <= i < s.len() ==> is_separator(#[trigger] s[i]),
    ensures
        strip_hex_noise(s) == Seq::<char>::empty(),
    decreases s.len(),
{
    if s.len() > 0 {
        assert(is_separator(s[0]));
        lemma_strip_separators(s.skip(1));
    }
}

/// The digits of a text decode when it normalises to the upper-case hex
/// text of the bytes.
proof fn lemma_read_back(s: Seq<char>, b: Seq<u8>)
    requires
        b.len() > 0,
        normalize_hex(s) == hex_upper(b),
        trim(s).len() > 0,
        !s.contains(':') || contains_seq(s, let_prefix()),
    ensures
        classify(s) == InputType::Hex,
        is_hex_text(normalize_hex(s)),
        hex_bytes(normalize_hex(s)) == b,
{
    lemma_hex_upper_decodes(b);
}

proof fn lemma_format_pretty(b: Seq<u8>)
    requires
        b.len() > 0,
    ensures
        normalize_hex(formatted(b, HexFormat::Pretty)) == hex_upper(b),
        trim(formatted(b, HexFormat::Pretty)).len() > 0,
        !formatted(b, HexFormat::Pretty).contains(':'),
{
    let s = pretty_list(b);
    lemma_pretty(b);
    lemma_trim_noop(s);
    assert(!starts_with(s, let_prefix())) by {
        if s.len() >= 4 {
            assert(s.take(4)[0] != let_prefix()[0]);
        }
    }
    assert(!starts_with(s, unsigned_char_prefix())) by {
        if s.len() >= 14 {
            assert(s.take(14)[0] != unsigned_char_prefix()[0]);
        }
    }
    assert forall|i: int| 0 <= i < s.len() implies s[i] != '\n' by {
        assert(list_char(s[i]));
    }
    lemma_one_line(s);
    assert(!s.contains(':')) by {
        assert forall|i: int| 0 <= i < s.len() implies s[i] != ':' by {
            assert(list_char(s[i]));
        }
    }
}

/// Facts about a non-empty text made of hex digits only.
proof fn lemma_digit_text(s: Seq<char>)
    requires
        s.len() > 0,
        forall|i: int| 0 <= i < s.len() ==> is_hex_digit(#[trigger] s[i]),
    ensures
        trim(s) == s,
        normalize_hex(s) == s,
        !s.contains(':'),
{
    assert(is_hex_digit(s[0]));
    assert(is_hex_digit(s[s.len() - 1]));
    lemma_trim_noop(s);
    assert(!starts_with(s, let_prefix())) by {
        if s.len() >= 4 {
            assert(s.take(4)[0] == s[0]);
        }
    }
    assert(!starts_with(s, unsigned_char_prefix())) by {
        if s.len() >= 14 {
            assert(s.take(14)[0] == s[0]);
        }
    }
    assert forall|i: int| 0 <= i < s.len() implies s[i] != '\n' && s[i] != ':' by {
        assert(is_hex_digit(s[i]));
    }
    lemma_one_line(s);
    lemma_strip_digits(s);
}

proof fn lemma_format_raw(b: Seq<u8>)
    requires
        b.len() > 0,
    ensures
        normalize_hex(formatted(b, HexFormat::RawHex)) == hex_lower(b),
        trim(formatted(b, HexFormat::RawHex)).len() > 0,
        !formatted(b, HexFormat::RawHex).contains(':'),
{
    let s = hex_lower(b);
    lemma_hex_lower_decodes(b);
    lemma_digit_text(s);
}

proof fn lemma_format_string(b: Seq<u8>)
    ensures
        normalize_hex(formatted(b, HexFormat::StringLiteral)) == hex_upper(b),
        trim(formatted(b, HexFormat::StringLiteral)).len() > 0,
        !formatted(b, HexFormat::StringLiteral).contains(':'),
{
    reveal_strlit("\"");
    let p = pretty_list(b);
    let q = "\""@;
    let s = q + p + q;
    assert(formatted(b, HexFormat::StringLiteral) == s);
    lemma_pretty(b);
    assert(s[0] == '"');
    assert(s.last() == '"');
    lemma_trim_noop(s);
    assert(!starts_with(s, let_prefix())) by {
        if s.len() >= 4 {
            assert(s.take(4)[0] != let_prefix()[0]);
        }
    }
    assert(!starts_with(s, unsigned_char_prefix())) by {
        if s.len() >= 14 {
            assert(s.take(14)[0] != unsigned_char_prefix()[0]);
        }
    }
    assert forall|i: int| 0 <= i < s.len() implies s[i] != '\n' && s[i] != ':' by {
        if 1 <= i < 1 + p.len() {
            assert(s[i] == p[i - 1]);
            assert(list_char(p[i - 1]));
        }
    }
    lemma_one_line(s);
    lemma_strip_framed(b, q, q);
}

proof fn lemma_format_rust(b: Seq<u8>)
    ensures
        normalize_hex(formatted(b, HexFormat::RustVector)) == hex_upper(b),
        trim(formatted(b, HexFormat::RustVector)).len() > 0,
        contains_seq(formatted(b, HexFormat::RustVector), let_prefix()),
{
    reveal_strlit("let data: [u8; ");
    reveal_strlit("] = [");
    reveal_strlit("];");
    let a = "let data: [u8; "@;
    let d = decimal(b.len());
    let bb = "] = ["@;
    let p = pretty_list(b);
    let c = "];"@;
    let s = a + d + bb + p + c;
    assert(formatted(b, HexFormat::RustVector) == s);
    lemma_decimal_digits(b.len());
    lemma_pretty(b);
    let n: int = s.len() as int;
    let off: int = (a.len() + d.len()) as int;
    assert(a.len() == 15);
    assert(n == off + 5 + p.len() + 2);
    // prefix and trimming
    assert(s.take(4) == let_prefix());
    assert(starts_with(s, let_prefix()));
    assert(s.subrange(0, 0 + let_prefix().len() as int) == let_prefix());
    assert(contains_seq(s, let_prefix()));
    assert(s[0] == 'l');
    assert(s.last() == ';');
    lemma_trim_noop(s);
    // no newline
    assert forall|i: int| 0 <= i < n implies s[i] != '\n' by {
        if a.len() <= i < off {
            assert(s[i] == d[i - a.len()]);
        } else if off + 5 <= i < off + 5 + p.len() {
            assert(s[i] == p[i - off - 5]);
            assert(list_char(p[i - off - 5]));
        }
    }
    lemma_one_line(s);
    // the payload bounds
    let eq = off + 2;
    assert(s[eq] == '=');
    assert forall|i: int| 0 <= i < eq implies s[i] != '=' by {
        if a.len() <= i < off {
            assert(s[i] == d[i - a.len()]);
        }
    }
    lemma_find_char_at(s, '=', eq);
    let t = s.skip(eq);
    assert(t[0] == '=' && t[1] == ' ' && t[2] == '[');
    lemma_find_char_at(t, '[', 2);
    assert(s[n - 2] == ']' && s[n - 1] == ';');
    lemma_rfind_char_at(s, ']', n - 2);
    assert(extract_payload(s) == s.subrange(eq + 3, n - 2));
    assert(s.subrange(eq + 3, n - 2) == p);
    lemma_strip_framed(b, Seq::<char>::empty(), Seq::<char>::empty());
    assert(Seq::<char>::empty() + p + Seq::<char>::empty() == p);
}

proof fn lemma_format_c(b: Seq<u8>)
    ensures
        normalize_hex(formatted(b, HexFormat::CStyleArray)) == hex_upper(b),
        trim(formatted(b, HexFormat::CStyleArray)).len() > 0,
        !formatted(b, HexFormat::CStyleArray).contains(':'),
{
    reveal_strlit("unsigned char data[");
    reveal_strlit("] = { ");
    reveal_strlit(" };");
    let a = "unsigned char data["@;
    let d = decimal(b.len());
    let bb = "] = { "@;
    let p = pretty_list(b);
    let c = " };"@;
    let s = a + d + bb + p + c;
    assert(formatted(b, HexFormat::CStyleArray) == s);
    lemma_decimal_digits(b.len());
    lemma_pretty(b);
    let n: int = s.len() as int;
    let off: int = (a.len() + d.len()) as int;
    assert(a.len() == 19);
    assert(n == off + 6 + p.len() + 3);
    assert(!starts_with(s, let_prefix())) by {
        assert(s.take(4)[0] != let_prefix()[0]);
    }
    assert(s.take(14) == unsigned_char_prefix());
    assert(s[0] == 'u');
    assert(s.last() == ';');
    lemma_trim_noop(s);
    assert forall|i: int| 0 <= i < n implies s[i] != '\n' && s[i] != ':' by {
        if a.len() <= i < off {
            assert(s[i] == d[i - a.len()]);
        } else if off + 6 <= i < off + 6 + p.len() {
            assert(s[i] == p[i - off - 6]);
            assert(list_char(p[i - off - 6]));
        }
    }
    lemma_one_line(s);
    let open = off + 4;
    assert(s[open] == '{');
    assert forall|i: int| 0 <= i < open implies s[i] != '{' by {
        if a.len() <= i < off {
            assert(s[i] == d[i - a.len()]);
        }
    }
    lemma_find_char_at(s, '{', open);
    assert(s[n - 2] == '}' && s[n - 1] == ';');
    lemma_rfind_char_at(s, '}', n - 2);
    assert(extract_payload(s) == s.subrange(open + 1, n - 2));
    let sp = " "@;
    reveal_strlit(" ");
    assert(s.subrange(open + 1, n - 2) == sp + p + sp);
    lemma_strip_framed(b, sp, sp);
}

/// Machine code written out in any of the byte formats normalises back to
/// hex digits that decode to the same bytes (no bytes included), and, when
/// there are bytes, is recognised as hex again: the output of an assembly can
/// be pasted back to be disassembled.
pub proof fn law_formatted_bytes_read_back(b: Seq<u8>, f: HexFormat)
    ensures
        is_hex_text(normalize_hex(formatted(b, f))),
        hex_bytes(normalize_hex(formatted(b, f))) == b,
        b.len() > 0 ==> classify(formatted(b, f)) == InputType::Hex,
        b.len() > 0 ==> classify(join(seq![formatted(b, f)], seq!['\n'])) == InputType::Hex,
{
    assert(join(seq![formatted(b, f)], seq!['\n']) == formatted(b, f));
    lemma_hex_upper_decodes(b);
    lemma_hex_lower_decodes(b);
    if b.len() == 0 {
        assert(b == Seq::<u8>::empty());
        assert(hex_upper(b) =~= Seq::<char>::empty());
        assert(hex_lower(b) =~= Seq::<char>::empty());
    }
    match f {
        HexFormat::Pretty => {
            if b.len() > 0 {
                lemma_format_pretty(b);
                lemma_read_back(formatted(b, f), b);
            } else {
                assert(formatted(b, f) == Seq::<char>::empty());
                assert(lines(Seq::<char>::empty()) == Seq::<Seq<char>>::empty());
                assert(normalize_hex(formatted(b, f)) == Seq::<char>::empty());
            }
        },
        HexFormat::RawHex => {
            if b.len() > 0 {
                lemma_format_raw(b);
            } else {
                assert(formatted(b, f) == Seq::<char>::empty());
                assert(lines(Seq::<char>::empty()) == Seq::<Seq<char>>::empty());
                assert(normalize_hex(formatted(b, f)) == Seq::<char>::empty());
            }
        },
        HexFormat::RustVector => {
            lemma_format_rust(b);
            if b.len() > 0 {
                lemma_read_back(formatted(b, f), b);
            }
        },
        HexFormat::CStyleArray => {
            lemma_format_c(b);
            if b.len() > 0 {
                lemma_read_back(formatted(b, f), b);
            }
        },
        HexFormat::StringLiteral => {
            lemma_format_string(b);
            if b.len() > 0 {
                lemma_read_back(formatted(b, f), b);
            }
        },
    }
}

/// Plain hex digits in even number are recognised as hex and kept as they are.
pub proof fn law_plain_hex_is_kept(s: Seq<char>)
    requires
        s.len() > 0,
        is_hex_text(s),
    ensures
        normalize_hex(s) == s,
        classify(s) == InputType::Hex,
{
    lemma_digit_text(s);
}

/// Stepping the byte format forward undoes stepping it back and the other
/// way round, and five steps forward come back to the start.
pub proof fn law_format_cycle(f: HexFormat)
    ensures
        prev_format(next_format(f)) == f,
        next_format(prev_format(f)) == f,
        next_format(next_format(next_format(next_format(next_format(f))))) == f,
{
}

/// Switching the syntax twice restores it.
pub proof fn law_syntax_switch_twice(s: AsmSyntax)
    ensures
        other_syntax(other_syntax(s)) == s,
        other_syntax(s) != s,
{
}

/// With two areas, the unfocused one is never the focused one, and moving
/// the focus twice brings it back.
pub proof fn law_focus_toggle_twice(selected: usize)
    requires
        selected < 2,
    ensures
        (selected + 1) % 2 != selected,
        ((selected + 1) % 2 + 1) % 2 == selected,
{
}

/// Moving the address up and then down (or down and then up) by 0x100
/// restores it where no saturation happens; the other settings stay.
pub proof fn law_address_up_down(c: Config, w1: bool, w2: bool)
    ensures
        c.address + 0x100 <= u64::MAX ==> config_after(
            config_after(c, w1, KeyCommand::AddressUp),
            w2,
            KeyCommand::AddressDown,
        ) == c,
        c.address >= 0x100 ==> config_after(
            config_after(c, w1, KeyCommand::AddressDown),
            w2,
            KeyCommand::AddressUp,
        ) == c,
{
}

/// Toggling multi-line output twice, switching the syntax twice, and (from
/// 64- or 86-mode) switching the architecture twice restore the settings.
pub proof fn law_toggles_twice(c: Config, w1: bool, w2: bool)
    ensures
        config_after(config_after(c, w1, KeyCommand::ToggleMultiline), w2, KeyCommand::ToggleMultiline)
            == c,
        config_after(config_after(c, w1, KeyCommand::CycleSyntax), w2, KeyCommand::CycleSyntax)
            == c,
        (c.mode == 64 || c.mode == 86) ==> config_after(
            config_after(c, w1, KeyCommand::ToggleArch),
            w2,
            KeyCommand::ToggleArch,
        ) == c,
{
}

/// While bytes are shown, the right arrow steps the byte format forward and
/// the left arrow back, so one undoes the other; while a disassembly is
/// shown, either arrow switches the syntax, and two presses restore it.
pub proof fn law_format_arrows(c: Config)
    ensures
        config_after(config_after(c, false, KeyCommand::FormatRight), false, KeyCommand::FormatLeft)
            == c,
        config_after(config_after(c, false, KeyCommand::FormatLeft), false, KeyCommand::FormatRight)
            == c,
        config_after(c, false, KeyCommand::FormatRight).hex == next_format(c.hex),
        config_after(c, false, KeyCommand::FormatLeft).hex == prev_format(c.hex),
        config_after(config_after(c, true, KeyCommand::FormatRight), true, KeyCommand::FormatLeft)
            == c,
{
}

/// The text of a non-empty file (its lower-case hex) is always recognised as
/// hex, and its digits decode to the file's bytes.
pub proof fn law_file_input_is_hex(d: Seq<u8>)
    requires
        d.len() > 0,
    ensures
        classify(hex_lower(d)) == InputType::Hex,
        normalize_hex(hex_lower(d)) == hex_lower(d),
        hex_bytes(normalize_hex(hex_lower(d))) == d,
{
    lemma_hex_lower_decodes(d);
    law_plain_hex_is_kept(hex_lower(d));
}

// ---------------------------------------------------------------------------
// Line by line
// ---------------------------------------------------------------------------

proof fn lemma_normalize_lines_append(x: Seq<Seq<char>>, y: Seq<Seq<char>>)
    ensures
        normalize_lines(x + y) == normalize_lines(x) + normalize_lines(y),
    decreases y.len(),
{
    if y.len() == 0 {
        assert(x + y == x);
        assert(normalize_lines(x) + Seq::<char>::empty() == normalize_lines(x));
    } else {
        assert((x + y).drop_last() == x + y.drop_last());
        assert((x + y).last() == y.last());
        lemma_normalize_lines_append(x, y.drop_last());
    }
}

/// A trailing whitespace character does not change the trim.
proof fn lemma_trim_drop_ws(s: Seq<char>)
    requires
        s.len() > 0,
        is_ws(s.last()),
    ensures
        trim(s.drop_last()) == trim(s),
    decreases s.len(),
{
    if s.len() == 1 {
        assert(s.drop_first() == Seq::<char>::empty());
        assert(s.drop_last() == Seq::<char>::empty());
        assert(s[0] == s.last());
        assert(trim_start(Seq::<char>::empty()) == Seq::<char>::empty());
        assert(trim_start(s) == trim_start(s.drop_first()));
        assert(trim_start(s) == Seq::<char>::empty());
    } else if is_ws(s[0]) {
        assert(s.drop_last()[0] == s[0]);
        assert(s.drop_last().drop_first() == s.drop_first().drop_last());
        assert(s.drop_first().last() == s.last());
        lemma_trim_drop_ws(s.drop_first());
    } else {
        assert(s.drop_last()[0] == s[0]);
        assert(trim_start(s) == s);
        assert(trim_start(s.drop_last()) == s.drop_last());
    }
}

/// Dropping a `\r` line end does not change what a line contributes.
proof fn lemma_normalize_strip_cr(l: Seq<char>)
    ensures
        normalize_line(strip_cr(l)) == normalize_line(l),
{
    if l.len() > 0 && l.last() == '\r' {
        lemma_trim_drop_ws(l);
    }
}

proof fn lemma_empty_line()
    ensures
        normalize_line(Seq::<char>::empty()) == Seq::<char>::empty(),
        normalize_lines(Seq::<Seq<char>>::empty()) == Seq::<char>::empty(),
        lines(Seq::<char>::empty()) == Seq::<Seq<char>>::empty(),
{
    let e = Seq::<char>::empty();
    assert(trim_start(e) == e);
    assert(trim_end(e) == e);
    assert(!starts_with(e, let_prefix()));
    assert(!starts_with(e, unsigned_char_prefix()));
}

proof fn lemma_normalize_one(x: Seq<char>, rest: Seq<Seq<char>>)
    ensures
        normalize_lines(seq![x] + rest) == normalize_line(x) + normalize_lines(rest),
{
    lemma_normalize_lines_append(seq![x], rest);
    assert(seq![x].drop_last() == Seq::<Seq<char>>::empty());
    lemma_empty_line();
    assert(Seq::<char>::empty() + normalize_line(x) == normalize_line(x));
}

/// Text joined by a newline normalises to the two parts' normalisations one
/// after the other: each line is normalised on its own, in order, and blank
/// lines contribute nothing.
pub proof fn law_normalize_by_lines(a: Seq<char>, b: Seq<char>)
    ensures
        normalize_hex(a + seq!['\n'] + b) == normalize_hex(a) + normalize_hex(b),
    decreases a.len(),
{
    let s = a + seq!['\n'] + b;
    crate::text::lemma_find_char(a, '\n');
    lemma_empty_line();
    match find_char(a, '\n') {
        Some(k) => {
            assert(s[k] == '\n');
            assert forall|j: int| 0 <= j < k implies s[j] != '\n' by {
                assert(s[j] == a[j]);
            }
            lemma_find_char_at(s, '\n', k);
            assert(s.take(k) == a.take(k));
            let a2 = a.skip(k + 1);
            assert(s.skip(k + 1) == a2 + seq!['\n'] + b);
            law_normalize_by_lines(a2, b);
            lemma_normalize_one(strip_cr(a.take(k)), lines(a2 + seq!['\n'] + b));
            lemma_normalize_one(strip_cr(a.take(k)), lines(a2));
        },
        None => {
            let n = a.len() as int;
            assert(s[n] == '\n');
            assert forall|j: int| 0 <= j < n implies s[j] != '\n' by {
                assert(s[j] == a[j]);
            }
            lemma_find_char_at(s, '\n', n);
            assert(s.take(n) == a);
            assert(s.skip(n + 1) == b);
            lemma_normalize_one(strip_cr(a), lines(b));
            lemma_normalize_strip_cr(a);
            if a.len() == 0 {
                assert(normalize_hex(a) == Seq::<char>::empty());
                assert(Seq::<char>::empty() + normalize_hex(b) == normalize_hex(b));
            } else {
                assert(lines(a) == seq![a]);
                lemma_normalize_one(a, Seq::<Seq<char>>::empty());
                assert(seq![a] + Seq::<Seq<char>>::empty() == seq![a]);
                assert(normalize_line(a) + Seq::<char>::empty() == normalize_line(a));
            }
        },
    }
}

// ---------------------------------------------------------------------------
// Separators, labels, addresses, numerals and keys
// ---------------------------------------------------------------------------

/// A separator (space, comma, semicolon, newline, tab, carriage return,
/// braces, brackets, quotes, or a backslash that does not start `\x`) in
/// front of any text contributes nothing to its digits.
pub proof fn law_separator_contributes_nothing(c: char, t: Seq<char>)
    requires
        c == ' ' || c == ',' || c == ';' || c == '\n' || c == '\t' || c == '\r' || c == '{' || c
            == '}' || c == '[' || c == ']' || c == '"' || c == '\'' || (c == '\\' && !(t.len() > 0
            && (t[0] == 'x' || t[0] == 'X'))),
    ensures
        strip_hex_noise(seq![c] + t) == strip_hex_noise(t),
{
    let s = seq![c] + t;
    assert(s[0] == c);
    if t.len() > 0 {
        assert(s[1] == t[0]);
    }
    assert(s.skip(1) == t);
}

/// A `0xNN, ..` list in square brackets normalises to the upper-case hex of
/// its bytes, and with bytes in it is recognised as hex.
pub proof fn law_bracketed_list(b: Seq<u8>)
    ensures
        normalize_hex(seq!['['] + pretty_list(b) + seq![']']) == hex_upper(b),
        b.len() > 0 ==> classify(seq!['['] + pretty_list(b) + seq![']']) == InputType::Hex,
{
    let p = pretty_list(b);
    let l = seq!['['];
    let r = seq![']'];
    let s = l + p + r;
    lemma_pretty(b);
    assert(s[0] == '[');
    assert(s.last() == ']');
    lemma_trim_noop(s);
    assert(!starts_with(s, let_prefix())) by {
        if s.len() >= 4 {
            assert(s.take(4)[0] != let_prefix()[0]);
        }
    }
    assert(!starts_with(s, unsigned_char_prefix())) by {
        if s.len() >= 14 {
            assert(s.take(14)[0] != unsigned_char_prefix()[0]);
        }
    }
    assert forall|i: int| 0 <= i < s.len() implies s[i] != '\n' && s[i] != ':' by {
        if 1 <= i < 1 + p.len() {
            assert(s[i] == p[i - 1]);
            assert(list_char(p[i - 1]));
        }
    }
    lemma_one_line(s);
    lemma_strip_framed(b, l, r);
    if b.len() > 0 {
        lemma_read_back(s, b);
    }
}

/// Only a line that is empty or ends with `:` (a bare label) yields no
/// code: a colon earlier in the line, as in `start: nop`, does not matter.
pub proof fn law_code_lines(a: Seq<char>, b: Seq<char>)
    ensures
        b.len() > 0 && b[b.len() - 1] != ':' ==> produces_code(a + b),
        !produces_code(a.push(':')),
        !produces_code(Seq::<char>::empty()),
{
    if b.len() > 0 {
        assert((a + b).last() == b[b.len() - 1]);
    }
}

/// Lines are decoded one after another: the first at the start address,
/// each next one at the previous one's address plus the bytes that it
/// decoded to.
pub proof fn law_line_addresses_chain(ls: Seq<Seq<char>>, i: int, a: u64)
    requires
        0 <= i < ls.len(),
    ensures
        line_address(ls, 0, a) == a,
        line_address(ls, i + 1, a) == line_address(ls, i, a) + line_size(ls[i]),
        trim(ls[i]).len() > 0 && is_hex_text(line_hex(ls[i])) ==> line_size(ls[i]) == hex_bytes(
            line_hex(ls[i]),
        ).len(),
{
    assert(ls.take(0) == Seq::<Seq<char>>::empty());
    assert(ls.take(i + 1).drop_last() == ls.take(i));
    assert(ls.take(i + 1).last() == ls[i]);
}

/// The value of a numeral's decimal digits.
pub open spec fn numeral_value(s: Seq<char>) -> int
    decreases s.len(),
{
    if s.len() == 0 {
        0
    } else {
        numeral_value(s.drop_last()) * 10 + (s.last() as int - '0' as int)
    }
}

/// `decimal(n)` is the decimal numeral of `n`: decimal digits that read back
/// as `n`, without a leading zero.
pub proof fn law_decimal_numeral(n: nat)
    ensures
        decimal(n).len() > 0,
        forall|i: int| 0 <= i < decimal(n).len() ==> '0' <= #[trigger] decimal(n)[i] <= '9',
        numeral_value(decimal(n)) == n,
        decimal(n)[0] == '0' ==> n == 0,
    decreases n,
{
    lemma_decimal_digits(n);
    if n >= 10 {
        law_decimal_numeral(n / 10);
        let d = decimal(n / 10);
        let c = ((n % 10) + '0' as int) as char;
        assert(decimal(n) == d.push(c));
        assert(d.push(c).drop_last() == d);
        assert(d.push(c)[0] == d[0]);
        assert(c as int - '0' as int == n % 10);
        assert(d.push(c).last() == c);
        assert(numeral_value(d.push(c)) == numeral_value(d) * 10 + (c as int - '0' as int));
        assert((n / 10) * 10 + n % 10 == n) by (nonlinear_arith);
    } else {
        let c = (n + '0' as int) as char;
        let s = seq![c];
        assert(decimal(n) == s);
        assert(s.drop_last() =~= Seq::<char>::empty());
        assert(numeral_value(Seq::<char>::empty()) == 0);
        assert(numeral_value(s) == numeral_value(s.drop_last()) * 10 + (s.last() as int - '0' as int));
        assert(c as int - '0' as int == n);
    }
}

/// Every key that changes the settings also has the text analysed again
/// under the new settings, and the new settings sent to the worker.
pub proof fn law_setting_keys_reanalyse(c: Config, w: bool, k: KeyCommand)
    ensures
        config_after(c, w, k) != c ==> effect_of(k).needs_update && effect_of(k).config_changed,
{
}

} // verus!
