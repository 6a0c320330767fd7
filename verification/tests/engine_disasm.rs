use qasm::engine::{build_capstone, cpu_mode, reconfigure_capstone, CpuMode, DecodedInsn, Disassembler, EngineError};
use qasm::input::assembler::{assign_decoded, assign_result, map_assembled_lines, prepare_assembly};
use qasm::input::disassmbler::{disassemble_text, disassembly_fits, line_statements, statements_of};
use qasm::output::AsmSyntax;

fn engine(syntax: AsmSyntax) -> Disassembler {
    build_capstone(CpuMode::Bits64, Some(syntax)).unwrap()
}

#[test]
fn mode_numbers() {
    assert_eq!(cpu_mode(32), Some(CpuMode::Bits32));
    assert_eq!(cpu_mode(86), Some(CpuMode::Bits32));
    assert_eq!(cpu_mode(64), Some(CpuMode::Bits64));
    assert_eq!(cpu_mode(16), None);
    assert_eq!(cpu_mode(0), None);
}

#[test]
fn engine_builds_in_both_modes() {
    assert!(build_capstone(CpuMode::Bits32, None).is_ok());
    assert!(build_capstone(CpuMode::Bits64, Some(AsmSyntax::Att)).is_ok());
    let e: Result<(), EngineError> = Ok(());
    assert!(e.is_ok());
}

#[test]
fn disassemble_multiline() {
    let cs = engine(AsmSyntax::Intel);
    let (lines, size) = disassemble_text(&cs, &["90", "", "c3"], 0, true).unwrap();
    assert_eq!(lines, vec!["nop".to_string(), String::new(), "ret".to_string()]);
    assert_eq!(size, 2);
}

#[test]
fn disassemble_single_line_joins_statements() {
    let cs = engine(AsmSyntax::Intel);
    let (lines, size) = disassemble_text(&cs, &["0x90, 0xC3", "b8 01 00 00 00"], 0x1000, false).unwrap();
    assert_eq!(lines, vec!["nop; ret; mov eax, 1".to_string()]);
    assert_eq!(size, 7);
}

#[test]
fn disassemble_att_syntax() {
    let cs = engine(AsmSyntax::Att);
    let (lines, _) = disassemble_text(&cs, &["b801000000"], 0, true).unwrap();
    assert_eq!(lines, vec!["movl $1, %eax".to_string()]);
}

#[test]
fn disassemble_blank_input() {
    let cs = engine(AsmSyntax::Intel);
    assert_eq!(disassemble_text(&cs, &[], 0, false), Some((vec![String::new()], 0)));
    assert_eq!(disassemble_text(&cs, &["  "], 0, true), Some((vec![String::new()], 0)));
}

#[test]
fn disassemble_rejects_bad_hex() {
    let cs = engine(AsmSyntax::Intel);
    assert_eq!(disassemble_text(&cs, &["90", "zz"], 0, true), None);
    assert_eq!(disassemble_text(&cs, &["9"], 0, true), None);
}

#[test]
fn disassembly_address_range_check() {
    assert!(disassembly_fits(&["90c3"], 0));
    assert!(disassembly_fits(&["90c3"], u64::MAX - 2));
    assert!(!disassembly_fits(&["90c3"], u64::MAX - 1));
    assert!(disassembly_fits(&["zz"], u64::MAX));
    // lines after the first bad one are never reached
    assert!(disassembly_fits(&["zz", "9090"], u64::MAX - 1));
    assert!(!disassembly_fits(&["9090", "zz"], u64::MAX - 1));
}

#[test]
fn reconfigure_changes_syntax() {
    let mut cs = engine(AsmSyntax::Intel);
    assert_eq!(reconfigure_capstone(&mut cs, AsmSyntax::Att, CpuMode::Bits64), Ok(()));
    let (lines, _) = disassemble_text(&cs, &["b801000000"], 0, true).unwrap();
    assert_eq!(lines, vec!["movl $1, %eax".to_string()]);
}

#[test]
fn prepare_strips_comments_and_flags_code_lines() {
    let mut lines = ["  mov eax, 1 ; load", "start:", "", "; only a comment", "ret"];
    let (text, flags) = prepare_assembly(&mut lines).unwrap();
    assert_eq!(text, "mov eax, 1\nstart:\n\n\nret");
    assert_eq!(flags, vec![true, false, false, false, true]);
    assert_eq!(lines, ["mov eax, 1", "start:", "", "", "ret"]);
}

#[test]
fn prepare_rejects_nul() {
    let mut lines = ["  nop\0 ; x"];
    assert_eq!(prepare_assembly(&mut lines), None);
    assert_eq!(lines, ["nop\0"]);
}

#[test]
fn prepare_empty() {
    let mut lines: [&str; 0] = [];
    assert_eq!(prepare_assembly(&mut lines), Some((String::new(), vec![])));
}

#[test]
fn map_assembled_to_lines() {
    let cs = engine(AsmSyntax::Intel);
    let rows = map_assembled_lines(&cs, &[true, false, true], &[0x90, 0xc3], 0).unwrap();
    assert_eq!(rows, (vec![vec![0x90], vec![], vec![0xc3]], 2));
}

#[test]
fn map_assembled_runs_out_of_instructions() {
    let cs = engine(AsmSyntax::Intel);
    let rows = map_assembled_lines(&cs, &[true, true], &[0xb8, 0x01, 0x00, 0x00, 0x00], 0).unwrap();
    assert_eq!(rows, (vec![vec![0xb8, 0x01, 0x00, 0x00, 0x00], vec![]], 5));
}

#[test]
fn disassemble_chains_addresses() {
    let cs = engine(AsmSyntax::Intel);
    let (lines, size) = disassemble_text(&cs, &["90", "ebfe"], 0x1000, true).unwrap();
    assert_eq!(lines, vec!["nop".to_string(), "jmp 0x1001".to_string()]);
    assert_eq!(size, 3);
}

#[test]
fn disassemble_blank_line_between_single_line() {
    let cs = engine(AsmSyntax::Intel);
    assert_eq!(
        disassemble_text(&cs, &["90", "", "c3"], 0, false),
        Some((vec!["nop; ret".to_string()], 2))
    );
}

fn insn(m: Option<&str>, o: Option<&str>, b: &[u8]) -> DecodedInsn {
    DecodedInsn { mnemonic: m.map(String::from), op_str: o.map(String::from), bytes: b.to_vec() }
}

#[test]
fn statements_of_decoded_instructions() {
    let v = vec![
        insn(Some("mov"), Some("eax, 1"), &[0xb8, 1, 0, 0, 0]),
        insn(Some("nop"), Some(""), &[0x90]),
        insn(None, None, &[0x0f]),
        insn(None, Some("x"), &[0x0f]),
    ];
    assert_eq!(
        statements_of(&v),
        vec!["mov eax, 1".to_string(), "nop".to_string(), "???".to_string(), "??? x".to_string()]
    );
}

#[test]
fn assign_decoded_in_order() {
    let v = vec![insn(Some("nop"), None, &[0x90]), insn(Some("ret"), None, &[0xc3])];
    assert_eq!(
        assign_decoded(&[false, true, true, true], &v),
        vec![vec![], vec![0x90], vec![0xc3], vec![]]
    );
    assert_eq!(assign_decoded(&[], &v), Vec::<Vec<u8>>::new());
}

#[test]
fn reconfigure_keeps_engine_usable_in_32_bit() {
    let mut cs = engine(AsmSyntax::Intel);
    assert_eq!(reconfigure_capstone(&mut cs, AsmSyntax::Intel, CpuMode::Bits32), Ok(()));
    let (lines, _) = disassemble_text(&cs, &["b801000000"], 0, true).unwrap();
    assert_eq!(lines, vec!["mov eax, 1".to_string()]);
}

#[test]
fn engine_answers_to_line_statements() {
    let v = vec![insn(Some("nop"), Some(""), &[0x90])];
    assert_eq!(line_statements(Ok(v)), Some(vec!["nop".to_string()]));
    assert_eq!(line_statements(Err(capstone::Error::OutOfMemory)), None);
}

#[test]
fn engine_answers_to_assigned_rows() {
    let v = vec![insn(Some("ret"), None, &[0xc3])];
    assert_eq!(assign_result(&[false, true], Ok(v), 1), Some((vec![vec![], vec![0xc3]], 1)));
    assert_eq!(assign_result(&[false], Err(capstone::Error::OutOfMemory), 1), None);
}
