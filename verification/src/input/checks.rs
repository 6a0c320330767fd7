//! Recognising hex input, and reducing the hex notations the tool accepts
//! (raw digits, `0x..` lists, Rust arrays, C arrays, string literals) to
//! plain hex digits.
use vstd::prelude::*;

use crate::hexcodec::{hex_decode, is_hex_text};
use crate::text::{
    append_chars, chars_of, contains_char, contains_chars, contains_seq, find_char, find_in,
    join, lemma_find_char, lemma_rfind_char, lines, rfind_char, rfind_in, starts_with,
    starts_with_in, string_of, strip_cr, trim, trim_bounds, trim_chars,
};

verus! {

/// What the input text is taken to be.
#[derive(Debug, PartialEq, Eq, Structural, Clone, Copy)]
pub enum InputType {
    Hex,
    Assembly,
}

// ---------------------------------------------------------------------------
// Specification
// ---------------------------------------------------------------------------

/// Characters that carry no digits in the accepted notations.
pub open spec fn is_separator(c: char) -> bool {
    c == ' ' || c == ',' || c == ';' || c == '\n' || c == '\t' || c == '\r' || c == '{' || c == '}'
        || c == '[' || c == ']' || c == '"' || c == '\'' || c == '\\'
}

/// Drops `0x`/`0X` and `\x`/`\X` prefixes and separators, keeping every other
/// character, scanning from the left.
pub open spec fn strip_hex_noise(s: Seq<char>) -> Seq<char>
    decreases s.len(),
{
    if s.len() == 0 {
        seq![]
    } else if s.len() >= 2 && (s[0] == '0' || s[0] == '\\') && (s[1] == 'x' || s[1] == 'X') {
        strip_hex_noise(s.skip(2))
    } else if is_separator(s[0]) {
        strip_hex_noise(s.skip(1))
    } else {
        seq![s[0]] + strip_hex_noise(s.skip(1))
    }
}

pub open spec fn let_prefix() -> Seq<char> {
    seq!['l', 'e', 't', ' ']
}

pub open spec fn unsigned_char_prefix() -> Seq<char> {
    seq!['u', 'n', 's', 'i', 'g', 'n', 'e', 'd', ' ', 'c', 'h', 'a', 'r', ' ']
}

/// The payload of a declaration line: for `let ...` the text between the
/// first `[` after the first `=` and the last `]`; for `unsigned char ...` the
/// text between the first `{` and the last `}`; otherwise the whole line.
pub open spec fn extract_payload(t: Seq<char>) -> Seq<char> {
    if starts_with(t, let_prefix()) {
        match find_char(t, '=') {
            Some(eq) => match (find_char(t.skip(eq), '['), rfind_char(t, ']')) {
                (Some(so), Some(end)) => if eq + so < end {
                    t.subrange(eq + so + 1, end)
                } else {
                    t
                },
                _ => t,
            },
            None => t,
        }
    } else if starts_with(t, unsigned_char_prefix()) {
        match (find_char(t, '{'), rfind_char(t, '}')) {
            (Some(start), Some(end)) => if start < end {
                t.subrange(start + 1, end)
            } else {
                t
            },
            _ => t,
        }
    } else {
        t
    }
}

/// The hex digits that one line contributes.
pub open spec fn normalize_line(l: Seq<char>) -> Seq<char> {
    strip_hex_noise(extract_payload(trim(l)))
}

/// The contributions of several lines, in order.
pub open spec fn normalize_lines(ls: Seq<Seq<char>>) -> Seq<char>
    decreases ls.len(),
{
    if ls.len() == 0 {
        seq![]
    } else {
        normalize_lines(ls.drop_last()) + normalize_line(ls.last())
    }
}

/// `normalize_hex_input` on a text.
pub open spec fn normalize_hex(s: Seq<char>) -> Seq<char> {
    normalize_lines(lines(s))
}

/// The texts of some string slices.
pub open spec fn views(input: Seq<&str>) -> Seq<Seq<char>> {
    input.map_values(|s: &str| s@)
}

/// How a text is classified.
pub open spec fn classify(full: Seq<char>) -> InputType {
    if trim(full).len() == 0 {
        InputType::Assembly
    } else if full.contains(':') && !contains_seq(full, let_prefix()) {
        InputType::Assembly
    } else if normalize_hex(full).len() > 0 && is_hex_text(normalize_hex(full)) {
        InputType::Hex
    } else {
        InputType::Assembly
    }
}

// ---------------------------------------------------------------------------
// Implementation
// ---------------------------------------------------------------------------

/// The bounds of the first line of `v[pos..]`, and where the rest begins.
pub fn next_line(v: &[char], pos: usize) -> (r: (usize, usize, usize))
    requires
        pos < v.len(),
    ensures
        pos <= r.0 <= r.1 <= v.len(),
        pos < r.2 <= v.len(),
        lines(v@.subrange(pos as int, v.len() as int)) == seq![v@.subrange(r.0 as int, r.1 as int)]
            + lines(v@.subrange(r.2 as int, v.len() as int)),
{
    let ghost s = v@.subrange(pos as int, v.len() as int);
    proof {
        lemma_find_char(s, '\n');
    }
    match find_in(v, pos, v.len(), '\n') {
        Some(k) => {
            let end = pos + k;
            assert(s.take(k as int) == v@.subrange(pos as int, end as int));
            assert(s.skip(k + 1) == v@.subrange(end + 1, v.len() as int));
            if k > 0 && v[end - 1] == '\r' {
                assert(strip_cr(s.take(k as int)) == v@.subrange(pos as int, end - 1));
                (pos, end - 1, end + 1)
            } else {
                (pos, end, end + 1)
            }
        },
        None => {
            assert(lines(v@.subrange(v.len() as int, v.len() as int)) == Seq::<Seq<char>>::empty());
            (pos, v.len(), v.len())
        },
    }
}

/// Removes prefixes and separators from `v[from..to]`, appending the rest.
fn strip_noise_into(v: &[char], from: usize, to: usize, out: &mut Vec<char>)
    requires
        from <= to <= v.len(),
    ensures
        final(out)@ == old(out)@ + strip_hex_noise(v@.subrange(from as int, to as int)),
{
    let mut i = from;
    while i < to
        invariant
            from <= i <= to <= v.len(),
            old(out)@ + strip_hex_noise(v@.subrange(from as int, to as int)) == out@
                + strip_hex_noise(v@.subrange(i as int, to as int)),
        decreases to - i,
    {
        let ghost rest = v@.subrange(i as int, to as int);
        let ch = v[i];
        if (ch == '0' || ch == '\\') && i + 1 < to && (v[i + 1] == 'x' || v[i + 1] == 'X') {
            assert(rest.skip(2) == v@.subrange(i + 2, to as int));
            i = i + 2;
        } else {
            assert(rest.skip(1) == v@.subrange(i + 1, to as int));
            if !(ch == ' ' || ch == ',' || ch == ';' || ch == '\n' || ch == '\t' || ch == '\r' || ch
                == '{' || ch == '}' || ch == '[' || ch == ']' || ch == '"' || ch == '\'' || ch
                == '\\') {
                out.push(ch);
                assert(out@ + strip_hex_noise(v@.subrange(i + 1, to as int)) == old(out)@
                    + strip_hex_noise(v@.subrange(from as int, to as int)));
            }
            i = i + 1;
        }
    }
}

/// The bounds of `extract_payload(v[a..b])` inside `v`.
fn payload_bounds(v: &[char], a: usize, b: usize) -> (r: (usize, usize))
    requires
        a <= b <= v.len(),
    ensures
        a <= r.0 <= r.1 <= b,
        v@.subrange(r.0 as int, r.1 as int) == extract_payload(v@.subrange(a as int, b as int)),
{
    let ghost t = v@.subrange(a as int, b as int);
    let let_p: [char; 4] = ['l', 'e', 't', ' '];
    let uc_p: [char; 14] = ['u', 'n', 's', 'i', 'g', 'n', 'e', 'd', ' ', 'c', 'h', 'a', 'r', ' '];
    assert(let_p@ == let_prefix());
    assert(uc_p@ == unsigned_char_prefix());
    assert(v@.subrange(a as int, b as int) == t);
    if starts_with_in(v, a, b, &let_p) {
        match find_in(v, a, b, '=') {
            Some(eq) => {
                proof {
                    lemma_find_char(t, '=');
                }
                assert(t.skip(eq as int) == v@.subrange(a + eq, b as int));
                match (find_in(v, a + eq, b, '['), rfind_in(v, a, b, ']')) {
                    (Some(so), Some(end)) => {
                        proof {
                            lemma_find_char(t.skip(eq as int), '[');
                            lemma_rfind_char(t, ']');
                        }
                        if eq + so < end {
                            assert(t.subrange(eq + so + 1, end as int) == v@.subrange(
                                a + eq + so + 1,
                                a + end,
                            ));
                            (a + eq + so + 1, a + end)
                        } else {
                            (a, b)
                        }
                    },
                    _ => (a, b),
                }
            },
            None => (a, b),
        }
    } else if starts_with_in(v, a, b, &uc_p) {
        match (find_in(v, a, b, '{'), rfind_in(v, a, b, '}')) {
            (Some(start), Some(end)) => {
                proof {
                    lemma_find_char(t, '{');
                    lemma_rfind_char(t, '}');
                }
                if start < end {
                    assert(t.subrange(start + 1, end as int) == v@.subrange(
                        a + start + 1,
                        a + end,
                    ));
                    (a + start + 1, a + end)
                } else {
                    (a, b)
                }
            },
            _ => (a, b),
        }
    } else {
        (a, b)
    }
}

/// Reduces hex written in any accepted notation to its bare digits: each
/// line is trimmed, a `let` or `unsigned char` declaration is cut down to its
/// array body, and `0x`/`\x` prefixes and separators are dropped.
pub fn normalize_hex_input(input: &str) -> (r: String)
    ensures
        r@ == normalize_hex(input@),
{
    let v = chars_of(input);
    let mut out: Vec<char> = Vec::new();
    let mut pos: usize = 0;
    let ghost mut done: Seq<Seq<char>> = seq![];
    assert(v@.subrange(0, v@.len() as int) == v@);
    while pos < v.len()
        invariant
            pos <= v.len(),
            v@ == input@,
            lines(v@) == done + lines(v@.subrange(pos as int, v.len() as int)),
            out@ == normalize_lines(done),
        decreases v.len() - pos,
    {
        let (ls, le, next) = next_line(&v, pos);
        let (ts, te) = trim_bounds(&v, ls, le);
        let (ps, pe) = payload_bounds(&v, ts, te);
        strip_noise_into(&v, ps, pe, &mut out);
        proof {
            let l = v@.subrange(ls as int, le as int);
            assert(done.push(l).drop_last() == done);
            assert(done + lines(v@.subrange(pos as int, v.len() as int)) == done.push(l) + lines(
                v@.subrange(next as int, v.len() as int),
            ));
            done = done.push(l);
        }
        pos = next;
    }
    proof {
        assert(lines(v@.subrange(pos as int, v.len() as int)) == Seq::<Seq<char>>::empty());
        assert(done + Seq::<Seq<char>>::empty() == done);
    }
    string_of(&out)
}

/// The characters of `input` joined by `sep`.
pub fn join_strs(input: &[&str], sep: &[char]) -> (r: Vec<char>)
    ensures
        r@ == join(views(input@), sep@),
{
    let ghost parts = views(input@);
    let mut out: Vec<char> = Vec::new();
    let mut i: usize = 0;
    while i < input.len()
        invariant
            i <= input.len(),
            parts == views(input@),
            out@ == join(parts.take(i as int), sep@),
        decreases input.len() - i,
    {
        let cs = chars_of(input[i]);
        if i > 0 {
            append_chars(&mut out, sep);
        }
        append_chars(&mut out, &cs);
        proof {
            assert(parts.take(i + 1).drop_last() == parts.take(i as int));
            assert(parts.take(i + 1).last() == cs@);
            if i == 0 {
                assert(out@ == cs@);
            }
        }
        i = i + 1;
    }
    assert(parts.take(input.len() as int) == parts);
    out
}

/// Decides whether the lines are hex to disassemble or assembly to assemble.
/// Blank input, or input with a `:` (a label) and no `let ` declaration, is
/// assembly; otherwise it is hex when its normalised digits are a non-empty
/// even run of hex digits.
pub fn identify_type(input: &[&str]) -> (r: InputType)
    ensures
        r == classify(join(views(input@), seq!['\n'])),
{
    let nl: [char; 1] = ['\n'];
    assert(nl@ == seq!['\n']);
    let full = join_strs(input, &nl);
    let t = trim_chars(&full);
    if t.len() == 0 {
        return InputType::Assembly;
    }
    let let_p: [char; 4] = ['l', 'e', 't', ' '];
    assert(let_p@ == let_prefix());
    if contains_char(&full, ':') && !contains_chars(&full, &let_p) {
        return InputType::Assembly;
    }
    let full_text = string_of(&full);
    let normalized = normalize_hex_input(full_text.as_str());
    if !normalized.as_str().is_empty() && hex_decode(normalized.as_str()).is_ok() {
        InputType::Hex
    } else {
        InputType::Assembly
    }
}

} // verus!
