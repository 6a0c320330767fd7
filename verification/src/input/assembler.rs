//! Assembly input: stripping comments before the assembler runs, and
//! attributing the encoded instructions back to the source lines.
use vstd::prelude::*;

use crate::engine::{capstone_disasm_all, decoded, insn_bytes, insn_views, DecodedInsn, Disassembler};
use crate::input::checks::views;
use crate::text::{append_chars, chars_of, contains_char, find_char, find_in, join, lemma_find_char, string_of, trim, trim_bounds};

verus! {

// ---------------------------------------------------------------------------
// Specification
// ---------------------------------------------------------------------------

/// A source line without its `;` comment and surrounding whitespace.
pub open spec fn strip_comment(l: Seq<char>) -> Seq<char> {
    match find_char(l, ';') {
        Some(e) => trim(l.take(e)),
        None => trim(l),
    }
}

/// A cleaned line yields an instruction unless it is empty or a label.
pub open spec fn produces_code(t: Seq<char>) -> bool {
    !(t.len() == 0 || t.last() == ':')
}

/// All source lines, cleaned.
pub open spec fn cleaned_lines(ls: Seq<Seq<char>>) -> Seq<Seq<char>> {
    ls.map_values(|l: Seq<char>| strip_comment(l))
}

/// The text handed to the assembler.
pub open spec fn assembly_source(ls: Seq<Seq<char>>) -> Seq<char> {
    join(cleaned_lines(ls), seq!['\n'])
}

/// The contents of some byte vectors.
pub open spec fn byte_rows(v: Seq<Vec<u8>>) -> Seq<Seq<u8>> {
    v.map_values(|b: Vec<u8>| b@)
}

/// Gives each code line the next instruction (or nothing once they run out)
/// and every other line an empty row.
pub open spec fn assign_rows(flags: Seq<bool>, insns: Seq<Seq<u8>>) -> Seq<Seq<u8>>
    decreases flags.len(),
{
    if flags.len() == 0 {
        seq![]
    } else if flags[0] && insns.len() > 0 {
        seq![insns[0]] + assign_rows(flags.drop_first(), insns.drop_first())
    } else {
        seq![seq![]] + assign_rows(flags.drop_first(), insns)
    }
}

// ---------------------------------------------------------------------------
// Implementation
// ---------------------------------------------------------------------------

/// The bounds, in characters, of a source line without its comment and
/// surrounding whitespace.
fn clean_source_bounds(line: &str) -> (r: (usize, usize))
    ensures
        r.0 <= r.1 <= line@.len(),
        line@.subrange(r.0 as int, r.1 as int) == strip_comment(line@),
{
    let v = chars_of(line);
    let end = match find_in(&v, 0, v.len(), ';') {
        Some(e) => e,
        None => v.len(),
    };
    proof {
        assert(v@.subrange(0, v.len() as int) == v@);
        lemma_find_char(v@, ';');
        assert(v@.subrange(0, end as int) == if end == v.len() {
            v@
        } else {
            v@.take(end as int)
        });
    }
    trim_bounds(&v, 0, end)
}

/// Prepares assembly source: each line loses its `;` comment and
/// surrounding whitespace (the cleaned line replaces it in `input`), the
/// lines are joined by newlines, and each line is flagged as producing code
/// unless it is empty or a label. `None` when the text holds a NUL
/// character, which the assembler cannot take.
pub fn prepare_assembly(input: &mut [&str]) -> (r: Option<(String, Vec<bool>)>)
    ensures
        final(input)@.len() == old(input)@.len(),
        forall|j: int|
            0 <= j < old(input)@.len() ==> (#[trigger] final(input)@[j])@ == strip_comment(
                old(input)@[j]@,
            ),
        r is None <==> assembly_source(views(old(input)@)).contains('\0'),
        r matches Some((text, flags)) ==> {
            &&& text@ == assembly_source(views(old(input)@))
            &&& flags@ == cleaned_lines(views(old(input)@)).map_values(
                |t: Seq<char>| produces_code(t),
            )
        },
{
    let ghost orig = input@;
    let ghost cl = cleaned_lines(views(orig));
    let mut text: Vec<char> = Vec::new();
    let mut flags: Vec<bool> = Vec::new();
    let nl: [char; 1] = ['\n'];
    let mut i: usize = 0;
    while i < input.len()
        invariant
            i <= input.len(),
            orig == old(input)@,
            input@.len() == orig.len(),
            forall|j: int| 0 <= j < i ==> (#[trigger] input@[j])@ == cl[j],
            forall|j: int| i <= j < orig.len() ==> #[trigger] input@[j] == orig[j],
            cl == cleaned_lines(views(orig)),
            nl@ == seq!['\n'],
            text@ == join(cl.take(i as int), seq!['\n']),
            flags@ == cl.take(i as int).map_values(|t: Seq<char>| produces_code(t)),
        decreases input.len() - i,
    {
        let src: &str = input[i];
        let (a, b) = clean_source_bounds(src);
        let cleaned: &str = src.substring_char(a, b);
        let line = chars_of(cleaned);
        assert(cl[i as int] == line@);
        input[i] = cleaned;
        if i > 0 {
            append_chars(&mut text, &nl);
        }
        append_chars(&mut text, &line);
        let code = !(line.len() == 0 || line[line.len() - 1] == ':');
        flags.push(code);
        proof {
            assert(cl.take(i + 1).drop_last() == cl.take(i as int));
            assert(cl.take(i + 1).last() == line@);
            if i == 0 {
                assert(text@ == line@);
            }
            assert(flags@ =~= cl.take(i + 1).map_values(|t: Seq<char>| produces_code(t)));
        }
        i = i + 1;
    }
    assert(cl.take(input.len() as int) == cl);
    if contains_char(&text, '\0') {
        return None;
    }
    Some((string_of(&text), flags))
}

/// Hands the decoded instructions out in order to the lines flagged as
/// producing code, one each, and an empty row to every other line (and to
/// code lines once the instructions run out).
pub fn assign_decoded(flags: &[bool], insns: &Vec<DecodedInsn>) -> (rows: Vec<Vec<u8>>)
    ensures
        byte_rows(rows@) == assign_rows(flags@, insn_bytes(insn_views(insns@))),
{
    let ghost ib: Seq<Seq<u8>> = insn_bytes(insn_views(insns@));
    let mut rows: Vec<Vec<u8>> = Vec::new();
    let mut i: usize = 0;
    let mut j: usize = 0;
    assert(flags@.skip(0) == flags@);
    assert(ib.skip(0) == ib);
    while i < flags.len()
        invariant
            i <= flags.len(),
            j <= insns.len(),
            ib == insn_bytes(insn_views(insns@)),
            assign_rows(flags@, ib) == byte_rows(rows@) + assign_rows(
                flags@.skip(i as int),
                ib.skip(j as int),
            ),
        decreases flags.len() - i,
    {
        let ghost prev = rows@;
        let ghost rest = flags@.skip(i as int);
        assert(rest.drop_first() == flags@.skip(i + 1));
        assert(ib.len() == insns@.len());
        if flags[i] && j < insns.len() {
            assert(ib.skip(j as int).drop_first() == ib.skip(j + 1));
            let b = insns[j].bytes.clone();
            rows.push(b);
            assert(byte_rows(rows@) =~= byte_rows(prev).push(ib[j as int]));
            j = j + 1;
        } else {
            rows.push(Vec::new());
            assert(byte_rows(rows@) =~= byte_rows(prev).push(seq![]));
        }
        i = i + 1;
    }
    assert(assign_rows(flags@.skip(i as int), ib.skip(j as int)) == Seq::<Seq<u8>>::empty());
    assert(byte_rows(rows@) == assign_rows(flags@, ib));
    rows
}

/// The rows of the source lines, given the decoder's answer for the code:
/// the decoded instructions handed out by `assign_decoded` and the code's
/// length, or nothing when the decoder failed.
pub fn assign_result(flags: &[bool], res: Result<Vec<DecodedInsn>, capstone::Error>, code_len: usize) -> (r: Option<
    (Vec<Vec<u8>>, usize),
>)
    ensures
        match res {
            Ok(v) => r matches Some((rows, n)) && n == code_len && byte_rows(rows@) == assign_rows(
                flags@,
                insn_bytes(insn_views(v@)),
            ),
            Err(_) => r is None,
        },
{
    match res {
        Ok(v) => Some((assign_decoded(flags, &v), code_len)),
        Err(_) => None,
    }
}

/// Attributes assembled machine code back to the source lines: the code is
/// decoded at `address`, and the decoded instructions are handed out in order
/// to the lines flagged as producing code. The count is the length of the
/// code. `None` when the decoder fails.
pub fn map_assembled_lines(dis: &Disassembler, flags: &[bool], code: &[u8], address: u64) -> (r: Option<
    (Vec<Vec<u8>>, usize),
>)
    ensures
        r matches Some((rows, n)) ==> {
            &&& n == code@.len()
            &&& byte_rows(rows@) == assign_rows(flags@, insn_bytes(decoded(dis@, code@, address)))
        },
{
    assign_result(flags, capstone_disasm_all(dis, code, address), code.len())
}

} // verus!
