//! Disassembly of hex input, line by line.
use vstd::prelude::*;

use crate::engine::{capstone_disasm_all, decoded, insn_view, insn_views, DecodedInsn, Disassembler};
use crate::hexcodec::{decode_hex, hex_bytes, is_hex_text};
use crate::input::checks::{normalize_hex, normalize_hex_input, views};
use crate::text::{append_chars, chars_of, join, join_strings, string_of, string_views, trim, trim_chars};

verus! {

// ---------------------------------------------------------------------------
// Specification
// ---------------------------------------------------------------------------

/// The mnemonic of an instruction, `???` where the engine gave none.
pub open spec fn mnemonic_text(i: (Option<Seq<char>>, Option<Seq<char>>, Seq<u8>)) -> Seq<char> {
    match i.0 {
        Some(s) => s,
        None => "???"@,
    }
}

/// The operand text of an instruction, empty where the engine gave none.
pub open spec fn operand_text(i: (Option<Seq<char>>, Option<Seq<char>>, Seq<u8>)) -> Seq<char> {
    match i.1 {
        Some(s) => s,
        None => seq![],
    }
}

/// An instruction as one statement: the mnemonic, then a space and the
/// operands if there are any.
pub open spec fn statement(i: (Option<Seq<char>>, Option<Seq<char>>, Seq<u8>)) -> Seq<char> {
    if operand_text(i).len() == 0 {
        mnemonic_text(i)
    } else {
        mnemonic_text(i) + " "@ + operand_text(i)
    }
}

/// The statements of several instructions.
pub open spec fn statements(v: Seq<(Option<Seq<char>>, Option<Seq<char>>, Seq<u8>)>) -> Seq<Seq<char>> {
    v.map_values(|i: (Option<Seq<char>>, Option<Seq<char>>, Seq<u8>)| statement(i))
}

/// The hex digits of one input line.
pub open spec fn line_hex(l: Seq<char>) -> Seq<char> {
    normalize_hex(trim(l))
}

/// A line is blank, or its digits decode.
pub open spec fn line_decodes(l: Seq<char>) -> bool {
    trim(l).len() == 0 || is_hex_text(line_hex(l))
}

/// The number of bytes a line decodes to (0 for a blank or bad line).
pub open spec fn line_size(l: Seq<char>) -> nat {
    if trim(l).len() == 0 || !is_hex_text(line_hex(l)) {
        0
    } else {
        line_hex(l).len() / 2
    }
}

/// The number of bytes that all lines decode to.
pub open spec fn total_size(ls: Seq<Seq<char>>) -> nat
    decreases ls.len(),
{
    if ls.len() == 0 {
        0
    } else {
        total_size(ls.drop_last()) + line_size(ls.last())
    }
}

/// The rows that the lines give, where `outs[i]` are the statements that the
/// engine produced for line `i`: a blank line gives an empty row when each
/// statement has a row of its own, and nothing otherwise.
pub open spec fn disasm_rows(ls: Seq<Seq<char>>, outs: Seq<Seq<Seq<char>>>, multiline: bool) -> Seq<
    Seq<char>,
>
    decreases ls.len(),
{
    if ls.len() == 0 {
        seq![]
    } else {
        let prev = disasm_rows(ls.drop_last(), outs.drop_last(), multiline);
        if trim(ls.last()).len() == 0 {
            if multiline {
                prev.push(seq![])
            } else {
                prev
            }
        } else {
            prev + outs.last()
        }
    }
}

/// The output lines: one per statement (and per blank line), or else a
/// single line with all statements joined by `; `.
pub open spec fn disasm_output(ls: Seq<Seq<char>>, outs: Seq<Seq<Seq<char>>>, multiline: bool) -> Seq<
    Seq<char>,
> {
    if multiline {
        disasm_rows(ls, outs, true)
    } else {
        let st = disasm_rows(ls, outs, false);
        if st.len() == 0 {
            seq![seq![]]
        } else {
            seq![join(st, "; "@)]
        }
    }
}

/// The index of the first line that is neither blank nor hex (the number of
/// lines when there is none).
pub open spec fn first_bad(ls: Seq<Seq<char>>) -> nat
    decreases ls.len(),
{
    if ls.len() == 0 {
        0
    } else if !line_decodes(ls[0]) {
        0
    } else {
        1 + first_bad(ls.drop_first())
    }
}

/// The bytes decoded from the lines before the first bad one.
pub open spec fn reached_size(ls: Seq<Seq<char>>) -> nat {
    total_size(ls.take(first_bad(ls) as int))
}

/// The address at which line `i` is decoded: the start, plus the bytes of
/// the lines before it.
pub open spec fn line_address(ls: Seq<Seq<char>>, i: int, address: u64) -> int {
    address + total_size(ls.take(i))
}

/// The statements that the engine gives each line: its decoding of the
/// line's bytes at the line's address (nothing for blank lines).
pub open spec fn engine_outs(engine: (crate::engine::CpuMode, Option<crate::output::AsmSyntax>), ls: Seq<Seq<char>>, address: u64) -> Seq<Seq<Seq<char>>> {
    Seq::new(
        ls.len(),
        |i: int|
            if trim(ls[i]).len() == 0 {
                seq![]
            } else {
                statements(decoded(engine, hex_bytes(line_hex(ls[i])), line_address(ls, i, address) as u64))
            },
    )
}

proof fn lemma_first_bad(ls: Seq<Seq<char>>)
    ensures
        first_bad(ls) <= ls.len(),
        forall|j: int| 0 <= j < first_bad(ls) ==> line_decodes(#[trigger] ls[j]),
        first_bad(ls) < ls.len() ==> !line_decodes(ls[first_bad(ls) as int]),
    decreases ls.len(),
{
    if ls.len() > 0 && line_decodes(ls[0]) {
        lemma_first_bad(ls.drop_first());
        assert forall|j: int| 0 <= j < first_bad(ls) implies line_decodes(#[trigger] ls[j]) by {
            if j > 0 {
                assert(ls[j] == ls.drop_first()[j - 1]);
            }
        }
    }
}

/// Where all lines before `i` decode, `i` is at most the first bad one.
proof fn lemma_first_bad_after(ls: Seq<Seq<char>>, i: int)
    requires
        0 <= i <= ls.len(),
        forall|j: int| 0 <= j < i ==> line_decodes(#[trigger] ls[j]),
    ensures
        i <= first_bad(ls),
        i < ls.len() && !line_decodes(ls[i]) ==> first_bad(ls) == i,
{
    lemma_first_bad(ls);
    if first_bad(ls) < i {
        assert(line_decodes(ls[first_bad(ls) as int]));
    }
}

proof fn lemma_total_size_prefix(ls: Seq<Seq<char>>, i: int)
    requires
        0 <= i <= ls.len(),
    ensures
        total_size(ls.take(i)) <= total_size(ls),
    decreases ls.len(),
{
    if i == ls.len() {
        assert(ls.take(i) == ls);
    } else {
        lemma_total_size_prefix(ls.drop_last(), i);
        assert(ls.drop_last().take(i) == ls.take(i));
    }
}

// ---------------------------------------------------------------------------
// Implementation
// ---------------------------------------------------------------------------

/// One instruction as a statement.
fn statement_text(insn: &DecodedInsn) -> (s: String)
    ensures
        s@ == statement(insn_view(*insn)),
{
    let mut out = match &insn.mnemonic {
        Some(m) => chars_of(m.as_str()),
        None => chars_of("???"),
    };
    let op = match &insn.op_str {
        Some(o) => chars_of(o.as_str()),
        None => Vec::new(),
    };
    if op.len() > 0 {
        append_chars(&mut out, &chars_of(" "));
        append_chars(&mut out, &op);
    }
    string_of(&out)
}

/// Each decoded instruction as a statement: the mnemonic (`???` where there
/// is none), then a space and the operands where there are any.
pub fn statements_of(insns: &Vec<DecodedInsn>) -> (r: Vec<String>)
    ensures
        string_views(r@) == statements(insn_views(insns@)),
{
    let mut out: Vec<String> = Vec::new();
    let mut k: usize = 0;
    while k < insns.len()
        invariant
            k <= insns.len(),
            string_views(out@) == statements(insn_views(insns@.take(k as int))),
        decreases insns.len() - k,
    {
        let st = statement_text(&insns[k]);
        let ghost prev = out@;
        out.push(st);
        proof {
            assert(string_views(out@) =~= string_views(prev).push(st@));
            assert(insns@.take(k + 1) == insns@.take(k as int).push(insns@[k as int]));
            assert(statements(insn_views(insns@.take(k + 1))) =~= statements(
                insn_views(insns@.take(k as int)),
            ).push(statement(insn_view(insns@[k as int]))));
        }
        k = k + 1;
    }
    assert(insns@.take(insns.len() as int) == insns@);
    out
}

/// What one line contributes, given the engine's answer for its bytes: the
/// statements of the decoded instructions, or nothing when the engine failed.
pub fn line_statements(res: Result<Vec<DecodedInsn>, capstone::Error>) -> (r: Option<Vec<String>>)
    ensures
        match res {
            Ok(v) => r matches Some(st) && string_views(st@) == statements(insn_views(v@)),
            Err(_) => r is None,
        },
{
    match res {
        Ok(v) => Some(statements_of(&v)),
        Err(_) => None,
    }
}

/// Whether a line is blank, and its hex digits.
fn clean_line(line: &str) -> (r: (bool, String))
    ensures
        r.0 == (trim(line@).len() == 0),
        r.1@ == line_hex(line@),
{
    let t = trim_chars(&chars_of(line));
    let ts = string_of(&t);
    (t.len() == 0, normalize_hex_input(ts.as_str()))
}

/// Whether disassembling the lines from `address` keeps every instruction
/// address and the byte count within range, counting the lines up to the
/// first one that is not hex.
pub fn disassembly_fits(input: &[&str], address: u64) -> (b: bool)
    ensures
        b == (address + reached_size(views(input@)) <= u64::MAX && reached_size(views(input@))
            <= usize::MAX),
{
    let ghost ls = views(input@);
    let bound: u64 = if ((u64::MAX - address) as u128) < (usize::MAX as u128) {
        u64::MAX - address
    } else {
        usize::MAX as u64
    };
    proof {
        lemma_first_bad(ls);
    }
    let mut sum: u64 = 0;
    let mut i: usize = 0;
    while i < input.len()
        invariant
            i <= input.len(),
            ls == views(input@),
            sum == total_size(ls.take(i as int)),
            sum <= bound,
            forall|j: int| 0 <= j < i ==> line_decodes(#[trigger] ls[j]),
            bound as int == if u64::MAX - address < usize::MAX {
                u64::MAX - address
            } else {
                usize::MAX as int
            },
        decreases input.len() - i,
    {
        let (blank, clean) = clean_line(input[i]);
        assert(ls.take(i + 1).drop_last() == ls.take(i as int));
        assert(ls[i as int] == input[i as int]@);
        if !blank {
            let digits = chars_of(clean.as_str());
            match decode_hex(clean.as_str()) {
                Some(_) => {
                    let n = (digits.len() / 2) as u64;
                    if n > bound - sum {
                        proof {
                            assert(line_decodes(ls[i as int]));
                            lemma_first_bad_after(ls, i + 1);
                            lemma_first_bad(ls);
                            lemma_total_size_prefix(ls.take(first_bad(ls) as int), i + 1);
                            assert(ls.take(first_bad(ls) as int).take(i + 1) == ls.take(i + 1));
                        }
                        return false;
                    }
                    sum = sum + n;
                },
                None => {
                    proof {
                        lemma_first_bad_after(ls, i as int);
                    }
                    return true;
                },
            }
        }
        i = i + 1;
    }
    proof {
        lemma_first_bad_after(ls, input.len() as int);
    }
    assert(ls.take(input.len() as int) == ls);
    true
}

/// Disassembles hex input line by line, each line at the address where the
/// previous one ended. Blank lines give an empty output line when
/// `multiline` is set; otherwise all statements are joined into one line.
/// The count is the number of bytes decoded. `None` when a line is not hex,
/// or when the engine fails on one; the engine is consulted only for
/// non-blank lines, so blank input always succeeds.
pub fn disassemble_text(dis: &Disassembler, input: &[&str], address: u64, multiline: bool) -> (r: Option<
    (Vec<String>, usize),
>)
    requires
        address + reached_size(views(input@)) <= u64::MAX,
        reached_size(views(input@)) <= usize::MAX,
    ensures
        (exists|i: int| 0 <= i < input@.len() && !line_decodes(#[trigger] input@[i]@)) ==> r is None,
        r is None ==> exists|i: int|
            0 <= i < input@.len() && trim(#[trigger] input@[i]@).len() > 0 && forall|j: int|
                0 <= j < i ==> line_decodes(#[trigger] input@[j]@),
        r matches Some((rows, size)) ==> {
            &&& forall|i: int| 0 <= i < input@.len() ==> line_decodes(#[trigger] input@[i]@)
            &&& size == total_size(views(input@))
            &&& string_views(rows@) == disasm_output(
                views(input@),
                engine_outs(dis@, views(input@), address),
                multiline,
            )
        },
{
    let ghost ls = views(input@);
    let ghost eo = engine_outs(dis@, ls, address);
    let ghost mut outs: Seq<Seq<Seq<char>>> = seq![];
    let mut acc: Vec<String> = Vec::new();
    let mut current_addr = address;
    let mut size: usize = 0;
    let mut i: usize = 0;
    proof {
        lemma_first_bad(ls);
    }
    while i < input.len()
        invariant
            i <= input.len(),
            ls == views(input@),
            eo == engine_outs(dis@, ls, address),
            outs == eo.take(i as int),
            string_views(acc@) == disasm_rows(ls.take(i as int), outs, multiline),
            size == total_size(ls.take(i as int)),
            current_addr == address + size,
            address + reached_size(ls) <= u64::MAX,
            reached_size(ls) <= usize::MAX,
            forall|j: int| 0 <= j < i ==> line_decodes(#[trigger] input@[j]@),
            forall|j: int| 0 <= j < i ==> line_decodes(#[trigger] ls[j]),
        decreases input.len() - i,
    {
        let ghost before = acc@;
        assert(ls.take(i + 1).drop_last() == ls.take(i as int));
        assert(ls[i as int] == input[i as int]@);
        assert(eo.take(i + 1) == outs.push(eo[i as int]));
        let (blank, clean) = clean_line(input[i]);
        if blank {
            if multiline {
                let ghost prev = acc@;
                acc.push(String::new());
                assert(string_views(acc@) =~= string_views(prev).push(seq![]));
            }
            proof {
                assert(eo[i as int] == Seq::<Seq<char>>::empty());
                assert(outs.push(seq![]).drop_last() == outs);
                assert(string_views(acc@) == disasm_rows(ls.take(i + 1), outs.push(seq![]), multiline));
                outs = outs.push(seq![]);
            }
        } else {
            let bytes = match decode_hex(clean.as_str()) {
                Some(b) => b,
                None => {
                    assert(trim(input@[i as int]@).len() > 0);
                    return None;
                },
            };
            let answer = capstone_disasm_all(dis, &bytes, current_addr);
            let ghost answered = answer;
            let stmts = match line_statements(answer) {
                Some(st) => st,
                None => {
                    assert(trim(input@[i as int]@).len() > 0);
                    return None;
                },
            };
            assert(answered matches Ok(v) && string_views(stmts@) == statements(insn_views(v@)));
            let ghost sv = string_views(stmts@);
            let mut k: usize = 0;
            while k < stmts.len()
                invariant
                    k <= stmts.len(),
                    sv == string_views(stmts@),
                    string_views(acc@) == string_views(before) + sv.take(k as int),
                decreases stmts.len() - k,
            {
                let ghost prev = acc@;
                acc.push(stmts[k].clone());
                proof {
                    assert(string_views(acc@) =~= string_views(prev).push(sv[k as int]));
                    assert(sv.take(k + 1) == sv.take(k as int).push(sv[k as int]));
                }
                k = k + 1;
            }
            proof {
                assert(sv.take(stmts.len() as int) == sv);
                assert(line_decodes(ls[i as int]));
                lemma_first_bad_after(ls, i + 1);
                lemma_first_bad(ls);
                lemma_total_size_prefix(ls.take(first_bad(ls) as int), i + 1);
                assert(ls.take(first_bad(ls) as int).take(i + 1) == ls.take(i + 1));
                assert(bytes@.len() == line_size(ls[i as int]));
                assert(bytes@ == hex_bytes(line_hex(ls[i as int])));
                assert(current_addr as int == line_address(ls, i as int, address));
                assert(eo[i as int] == sv);
                assert(outs.push(sv).drop_last() == outs);
                assert(outs.push(sv).last() == sv);
                outs = outs.push(sv);
            }
            current_addr = current_addr + bytes.len() as u64;
            size = size + bytes.len();
        }
        i = i + 1;
    }
    proof {
        lemma_first_bad_after(ls, input.len() as int);
    }
    assert(ls.take(input.len() as int) == ls);
    assert(eo.take(input.len() as int) == eo);
    if !multiline {
        if acc.len() == 0 {
            let mut one: Vec<String> = Vec::new();
            one.push(String::new());
            assert(string_views(one@) =~= disasm_output(ls, eo, multiline));
            return Some((one, size));
        } else {
            let joined = join_strings(&acc, "; ");
            let mut one: Vec<String> = Vec::new();
            one.push(joined);
            assert(string_views(one@) =~= disasm_output(ls, eo, multiline));
            return Some((one, size));
        }
    }
    Some((acc, size))
}

} // verus!
