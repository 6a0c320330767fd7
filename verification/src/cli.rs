//! The command line: its options, and whether it asks for a one-shot run.
use vstd::prelude::*;

use std::path::PathBuf;

use crate::output::{AsmSyntax, HexFormat};
use crate::text::{join, join_strings, string_views, trim, trim_chars, chars_of};

verus! {

#[verifier::external_type_specification]
#[verifier::external_body]
pub struct ExPathBuf(std::path::PathBuf);

/// The options of the command line.
pub struct Cli {
    /// Engine mode number (32 or 86 for 32-bit, 64 for 64-bit).
    pub mode: u8,
    pub syntax: AsmSyntax,
    /// Byte format of assembled output.
    pub format: HexFormat,
    /// Address to decode at.
    pub address: u64,
    /// A file whose bytes are to be disassembled.
    pub input: Option<PathBuf>,
    /// The text to analyse, in words.
    pub data: Vec<String>,
}

impl Cli {
    /// The words of the text, joined by spaces.
    pub fn raw_input(&self) -> (r: String)
        ensures
            r@ == join(string_views(self.data@), " "@),
    {
        join_strings(&self.data, " ")
    }

    /// A run analyses once (rather than opening the interactive session)
    /// when there is text that is not blank, or a file.
    pub fn is_one_shot(&self, raw: &String) -> (b: bool)
        ensures
            b == (trim(raw@).len() > 0 || self.input is Some),
    {
        let t = trim_chars(&chars_of(raw.as_str()));
        t.len() > 0 || self.input.is_some()
    }
}

} // verus!
