//! Assembler / disassembler front end: input recognition, hex normalisation,
//! output formatting and the decisions of the interactive worker.
pub mod cli;
pub mod engine;
pub mod gui;
pub mod hexcodec;
pub mod input;
pub mod laws;
pub mod output;
pub mod text;
pub mod worker;
