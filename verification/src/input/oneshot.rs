//! The one-shot command: its input text, and what it prints for a decoding
//! or an encoding.
use vstd::prelude::*;

use crate::hexcodec::{hex_encode, hex_lower};
use crate::input::assembler::byte_rows;
use crate::output::HexFormat;
use crate::text::{join, join_strings, string_views};
use crate::worker::control::{format_rows, rows_text};

verus! {

/// The text to analyse: the hex of the file's bytes when a file was read,
/// otherwise the text from the command line.
pub fn input_text(file: Option<Vec<u8>>, text: String) -> (r: String)
    ensures
        match file {
            Some(data) => r@ == hex_lower(data@),
            None => r@ == text@,
        },
{
    match file {
        Some(data) => hex_encode(data.as_slice()),
        None => text,
    }
}

/// What is printed after a disassembly: the statements one per line, or a
/// failure notice.
pub fn render_disassembly(res: Option<(Vec<String>, usize)>) -> (r: String)
    ensures
        match res {
            Some((lines, _)) => r@ == join(string_views(lines@), "\n"@),
            None => r@ == "Failed decoding hex"@,
        },
{
    match res {
        Some((lines, _)) => join_strings(&lines, "\n"),
        None => String::from_str("Failed decoding hex"),
    }
}

/// What is printed after an assembly: the machine code of each source line
/// in the chosen format (empty for lines without code), one per line, or a
/// failure notice.
pub fn render_assembly(res: Option<(Vec<Vec<u8>>, usize)>, format: &HexFormat) -> (r: String)
    ensures
        match res {
            Some((rows, _)) => r@ == join(rows_text(byte_rows(rows@), *format), "\n"@),
            None => r@ == "Failed assembling code"@,
        },
{
    match res {
        Some((rows, _)) => {
            let lines = format_rows(&rows, format);
            join_strings(&lines, "\n")
        },
        None => String::from_str("Failed assembling code"),
    }
}

} // verus!
