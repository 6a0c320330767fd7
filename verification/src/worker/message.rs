//! Messages between the interface and the worker.
use vstd::prelude::*;

use std::time::Duration;

use crate::gui::app::Config;

verus! {

/// A change the interface asks of the worker.
pub enum WorkerEvent {
    ConfigChange { config: Config },
    Exit,
}

/// Text to analyse: the lines of the focused area.
pub struct WorkerCommand {
    pub input: Vec<String>,
}

/// What the worker answers.
pub enum WorkerResult {
    Success {
        duration: Duration,
        /// Some output line is non-empty.
        success: bool,
        /// The input was disassembled (rather than assembled).
        output_asm: bool,
        /// Bytes decoded or encoded.
        size: usize,
        lines: Vec<String>,
    },
    Failure,
}

} // verus!
