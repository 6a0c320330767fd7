//! The disassembly engine (Capstone): its configuration, and the calls into it.
use vstd::prelude::*;

use capstone::arch::{BuildsCapstone, BuildsCapstoneSyntax};
use capstone::Capstone;

use crate::output::AsmSyntax;

verus! {

#[verifier::external_type_specification]
#[verifier::external_body]
pub struct ExCapstone(capstone::Capstone);

#[verifier::external_type_specification]
#[verifier::external_body]
pub struct ExCapstoneError(capstone::Error);

/// Processor mode of the x86 engines.
#[derive(Clone, Copy, Debug, PartialEq, Eq, Structural)]
pub enum CpuMode {
    Bits32,
    Bits64,
}

/// Why an engine could not be set up.
#[derive(Clone, Copy, Debug, PartialEq, Eq, Structural)]
pub enum EngineError {
    /// The disassembler refused to start.
    Create,
    /// The disassembler refused the syntax.
    Syntax,
    /// The disassembler refused the mode.
    Mode,
}

/// The mode that a mode number selects: 32 and 86 mean 32-bit, 64 means 64-bit.
pub open spec fn mode_of(mode: u8) -> Option<CpuMode> {
    if mode == 32 || mode == 86 {
        Some(CpuMode::Bits32)
    } else if mode == 64 {
        Some(CpuMode::Bits64)
    } else {
        None
    }
}

/// The mode that a mode number selects, if it is supported.
pub fn cpu_mode(mode: u8) -> (r: Option<CpuMode>)
    ensures
        r == mode_of(mode),
{
    if mode == 32 || mode == 86 {
        Some(CpuMode::Bits32)
    } else if mode == 64 {
        Some(CpuMode::Bits64)
    } else {
        None
    }
}

/// One instruction as the disassembler reports it.
pub struct DecodedInsn {
    pub mnemonic: Option<String>,
    pub op_str: Option<String>,
    pub bytes: Vec<u8>,
}

/// The text of an optional string.
pub open spec fn opt_text(s: Option<String>) -> Option<Seq<char>> {
    match s {
        Some(t) => Some(t@),
        None => None,
    }
}

/// An instruction as plain values: mnemonic, operand text, bytes.
pub open spec fn insn_view(i: DecodedInsn) -> (Option<Seq<char>>, Option<Seq<char>>, Seq<u8>) {
    (opt_text(i.mnemonic), opt_text(i.op_str), i.bytes@)
}

/// Several instructions as plain values.
pub open spec fn insn_views(v: Seq<DecodedInsn>) -> Seq<(Option<Seq<char>>, Option<Seq<char>>, Seq<u8>)> {
    v.map_values(|i: DecodedInsn| insn_view(i))
}

/// The bytes of each instruction.
pub open spec fn insn_bytes(v: Seq<(Option<Seq<char>>, Option<Seq<char>>, Seq<u8>)>) -> Seq<Seq<u8>> {
    v.map_values(|i: (Option<Seq<char>>, Option<Seq<char>>, Seq<u8>)| i.2)
}

/// What an x86 Capstone engine in the given mode and syntax (`None`: the
/// engine's default, never set) decodes from `code` at address `addr`, when
/// it succeeds.
pub uninterp spec fn decoded(
    engine: (CpuMode, Option<AsmSyntax>),
    code: Seq<u8>,
    addr: u64,
) -> Seq<(Option<Seq<char>>, Option<Seq<char>>, Seq<u8>)>;

/// An x86 disassembler together with the mode and syntax it was last
/// successfully given; only the engine calls of this module (building, and
/// setting the syntax or the mode) set them, each alongside the call that
/// makes them so.
pub struct Disassembler {
    cs: Capstone,
    mode: CpuMode,
    syntax: Option<AsmSyntax>,
}

impl View for Disassembler {
    type V = (CpuMode, Option<AsmSyntax>);

    closed spec fn view(&self) -> (CpuMode, Option<AsmSyntax>) {
        (self.mode, self.syntax)
    }
}

/// `Capstone::new().x86().mode(..).build()`: an x86 disassembler in the given
/// mode, its syntax left at the default. On success the disassembler records
/// that mode and no syntax; the build can fail (the engine's allocation), so
/// success is not stated.
#[verifier::external_body]
fn capstone_x86(mode: CpuMode) -> (r: Result<Disassembler, capstone::Error>)
    ensures
        r matches Ok(d) ==> d@ == (mode, None::<AsmSyntax>),
{
    let m = match mode {
        CpuMode::Bits32 => capstone::arch::x86::ArchMode::Mode32,
        CpuMode::Bits64 => capstone::arch::x86::ArchMode::Mode64,
    };
    match Capstone::new().x86().mode(m).build() {
        Ok(cs) => Ok(Disassembler { cs, mode, syntax: None }),
        Err(e) => Err(e),
    }
}

/// `Capstone::new().x86().mode(..).syntax(..).build()`: an x86 disassembler in
/// the given mode and syntax, which it records on success; the build can fail
/// (the engine's allocation), so success is not stated.
#[verifier::external_body]
fn capstone_x86_with_syntax(mode: CpuMode, syntax: AsmSyntax) -> (r: Result<
    Disassembler,
    capstone::Error,
>)
    ensures
        r matches Ok(d) ==> d@ == (mode, Some(syntax)),
{
    let m = match mode {
        CpuMode::Bits32 => capstone::arch::x86::ArchMode::Mode32,
        CpuMode::Bits64 => capstone::arch::x86::ArchMode::Mode64,
    };
    let s = match syntax {
        AsmSyntax::Intel => capstone::arch::x86::ArchSyntax::Intel,
        AsmSyntax::Att => capstone::arch::x86::ArchSyntax::Att,
    };
    match Capstone::new().x86().mode(m).syntax(s).build() {
        Ok(cs) => Ok(Disassembler { cs, mode, syntax: Some(syntax) }),
        Err(e) => Err(e),
    }
}

/// `Capstone::set_syntax` on the x86 engine. The x86 engine, built with AT&T
/// support as here, accepts both Intel and AT&T syntax, so it succeeds; the
/// disassembler then records the syntax.
#[verifier::external_body]
fn capstone_set_syntax(d: &mut Disassembler, syntax: AsmSyntax) -> (r: Result<(), capstone::Error>)
    ensures
        r is Ok,
        final(d)@ == (old(d)@.0, Some(syntax)),
{
    let s = match syntax {
        AsmSyntax::Intel => capstone::Syntax::Intel,
        AsmSyntax::Att => capstone::Syntax::Att,
    };
    let r = d.cs.set_syntax(s);
    d.syntax = Some(syntax);
    r
}

/// `Capstone::set_mode` on the x86 engine. 32- and 64-bit modes are allowed
/// for x86, so it succeeds; the disassembler then records the mode.
#[verifier::external_body]
fn capstone_set_mode(d: &mut Disassembler, mode: CpuMode) -> (r: Result<(), capstone::Error>)
    ensures
        r is Ok,
        final(d)@ == (mode, old(d)@.1),
{
    let m = match mode {
        CpuMode::Bits32 => capstone::Mode::Mode32,
        CpuMode::Bits64 => capstone::Mode::Mode64,
    };
    let r = d.cs.set_mode(m);
    d.mode = mode;
    r
}

/// `Capstone::disasm_all` of `code` at address `addr`, each instruction
/// taken as its mnemonic, operand text and bytes. What it returns on success
/// depends on the engine's mode and syntax, the code and the address only
/// (detail, skip-data and the other options are never changed from their
/// defaults), and is named `decoded`. Whether it succeeds is not stated: it
/// fails, for one, when the engine cannot allocate.
#[verifier::external_body]
pub(crate) fn capstone_disasm_all(d: &Disassembler, code: &[u8], addr: u64) -> (r: Result<
    Vec<DecodedInsn>,
    capstone::Error,
>)
    ensures
        r matches Ok(v) ==> insn_views(v@) == decoded(d@, code@, addr),
{
    let insns = d.cs.disasm_all(code, addr)?;
    let mut v = Vec::new();
    for i in insns.iter() {
        v.push(DecodedInsn {
            mnemonic: i.mnemonic().map(String::from),
            op_str: i.op_str().map(String::from),
            bytes: i.bytes().to_vec(),
        });
    }
    Ok(v)
}

/// A disassembler for the mode, with the syntax if one is given.
pub fn build_capstone(mode: CpuMode, syntax: Option<AsmSyntax>) -> (r: Result<
    Disassembler,
    EngineError,
>)
    ensures
        r matches Ok(d) ==> d@ == (mode, syntax),
        r matches Err(e) ==> e == EngineError::Create,
{
    let built = match syntax {
        Some(s) => capstone_x86_with_syntax(mode, s),
        None => capstone_x86(mode),
    };
    match built {
        Ok(d) => Ok(d),
        Err(_) => Err(EngineError::Create),
    }
}

/// Brings the disassembler to the given syntax and mode (syntax first).
pub fn reconfigure_capstone(d: &mut Disassembler, syntax: AsmSyntax, mode: CpuMode) -> (r: Result<
    (),
    EngineError,
>)
    ensures
        r is Ok,
        final(d)@ == (mode, Some(syntax)),
{
    if capstone_set_syntax(d, syntax).is_err() {
        return Err(EngineError::Syntax);
    }
    if capstone_set_mode(d, mode).is_err() {
        return Err(EngineError::Mode);
    }
    Ok(())
}

} // verus!
