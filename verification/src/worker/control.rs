//! The worker's decisions: which queued settings win, when the engine is
//! reconfigured, and what is answered for a decoding or an encoding.
use vstd::prelude::*;

use std::time::Duration;

use crate::engine::{cpu_mode, mode_of, reconfigure_capstone, CpuMode, Disassembler, EngineError};
use crate::gui::app::Config;
use crate::input::assembler::byte_rows;
use crate::output::{format_bytes, formatted, HexFormat};
use crate::text::string_views;
use crate::worker::message::{WorkerCommand, WorkerEvent, WorkerResult};

verus! {

// ---------------------------------------------------------------------------
// Queued events
// ---------------------------------------------------------------------------

/// Some event asks the worker to stop.
pub open spec fn asks_exit(evs: Seq<WorkerEvent>) -> bool {
    exists|i: int| 0 <= i < evs.len() && #[trigger] evs[i] is Exit
}

/// The settings of the last settings change, if any.
pub open spec fn last_config(evs: Seq<WorkerEvent>) -> Option<Config>
    decreases evs.len(),
{
    if evs.len() == 0 {
        None
    } else {
        match evs.last() {
            WorkerEvent::ConfigChange { config } => Some(config),
            WorkerEvent::Exit => last_config(evs.drop_last()),
        }
    }
}

/// Reduces the queued events to a decision: `None` to stop, otherwise the
/// settings to adopt (the last ones sent), if any were sent.
pub fn fold_events(events: &Vec<WorkerEvent>) -> (r: Option<Option<Config>>)
    ensures
        r is None <==> asks_exit(events@),
        r matches Some(c) ==> c == last_config(events@),
{
    let mut latest: Option<Config> = None;
    let mut i: usize = 0;
    while i < events.len()
        invariant
            i <= events.len(),
            latest == last_config(events@.take(i as int)),
            forall|j: int| 0 <= j < i ==> !(#[trigger] events@[j] is Exit),
        decreases events.len() - i,
    {
        assert(events@.take(i + 1).drop_last() == events@.take(i as int));
        match &events[i] {
            WorkerEvent::ConfigChange { config } => {
                latest = Some(*config);
            },
            WorkerEvent::Exit => {
                assert(events@[i as int] is Exit);
                return None;
            },
        }
        i = i + 1;
    }
    assert(events@.take(events.len() as int) == events@);
    Some(latest)
}

/// The command to answer: the last one queued, or else the one received
/// first; older commands are dropped unanswered.
pub fn latest_command(first: Option<WorkerCommand>, queued: Vec<WorkerCommand>) -> (r: Option<
    WorkerCommand,
>)
    ensures
        queued@.len() > 0 ==> r == Some(queued@.last()),
        queued@.len() == 0 ==> r == first,
{
    let mut q = queued;
    match q.pop() {
        Some(c) => Some(c),
        None => first,
    }
}

/// Adopts new settings: when they differ from the current ones, the
/// disassembler is brought to their syntax and mode, and the answer is
/// `Ok(true)` (so the assembler has to be rebuilt too); otherwise nothing
/// changes and the answer is `Ok(false)`.
pub fn update_config(dis: &mut Disassembler, current: &mut Config, update: Option<Config>) -> (r: Result<
    bool,
    EngineError,
>)
    requires
        update matches Some(c) ==> (c != *old(current) ==> mode_of(c.mode) is Some),
    ensures
        match update {
            Some(c) => if c == *old(current) {
                &&& r == Ok::<bool, EngineError>(false)
                &&& *final(current) == *old(current)
                &&& final(dis)@ == old(dis)@
            } else {
                &&& r == Ok::<bool, EngineError>(true)
                &&& *final(current) == c
                &&& final(dis)@ == (mode_of(c.mode)->0, Some(c.syntax))
            },
            None => {
                &&& r == Ok::<bool, EngineError>(false)
                &&& *final(current) == *old(current)
                &&& final(dis)@ == old(dis)@
            },
        },
{
    match update {
        None => Ok(false),
        Some(config) => {
            if config == *current {
                Ok(false)
            } else {
                let mode = match cpu_mode(config.mode) {
                    Some(m) => m,
                    None => CpuMode::Bits64,
                };
                match reconfigure_capstone(dis, config.syntax, mode) {
                    Ok(()) => {
                        *current = config;
                        Ok(true)
                    },
                    Err(e) => Err(e),
                }
            }
        },
    }
}

/// What one wake-up of the worker comes to.
pub enum WakeUp {
    /// An exit was asked: stop, answering nothing.
    Stop,
    /// Go on: `rebuild` when the settings changed (the assembler has to
    /// follow them), and the one command to answer, if any.
    Answer { rebuild: bool, command: Option<WorkerCommand> },
}

/// The settings in force after the queued settings changes.
pub open spec fn settled(current: Config, evs: Seq<WorkerEvent>) -> Config {
    match last_config(evs) {
        Some(c) => c,
        None => current,
    }
}

/// One wake-up of the worker, given the settings events and commands that
/// were waiting: any exit request stops it with nothing changed and nothing
/// answered; otherwise the last settings sent are adopted (the disassembler
/// reconfigured only when they differ from those in force), and only the
/// last command waiting is answered, under those settings.
pub fn wake_up(
    dis: &mut Disassembler,
    cfg: &mut Config,
    events: &Vec<WorkerEvent>,
    first: Option<WorkerCommand>,
    queued: Vec<WorkerCommand>,
) -> (r: WakeUp)
    requires
        !asks_exit(events@) ==> (last_config(events@) matches Some(c) ==> (c != *old(cfg)
            ==> mode_of(c.mode) is Some)),
    ensures
        asks_exit(events@) ==> {
            &&& r is Stop
            &&& *final(cfg) == *old(cfg)
            &&& final(dis)@ == old(dis)@
        },
        !asks_exit(events@) ==> match r {
            WakeUp::Answer { rebuild, command } => {
                &&& command == (if queued@.len() > 0 {
                    Some(queued@.last())
                } else {
                    first
                })
                &&& *final(cfg) == settled(*old(cfg), events@)
                &&& rebuild == (settled(*old(cfg), events@) != *old(cfg))
                &&& rebuild ==> final(dis)@ == (mode_of(final(cfg).mode)->0, Some(final(cfg).syntax))
                &&& !rebuild ==> final(dis)@ == old(dis)@
            },
            WakeUp::Stop => false,
        },
{
    let update = match fold_events(events) {
        None => {
            return WakeUp::Stop;
        },
        Some(u) => u,
    };
    let rebuild = match update_config(dis, cfg, update) {
        Ok(changed) => changed,
        Err(_) => false,
    };
    WakeUp::Answer { rebuild, command: latest_command(first, queued) }
}

// ---------------------------------------------------------------------------
// Replies
// ---------------------------------------------------------------------------

/// Every line is empty.
pub open spec fn all_empty(lines: Seq<Seq<char>>) -> bool {
    forall|i: int| 0 <= i < lines.len() ==> (#[trigger] lines[i]).len() == 0
}

/// Some output line is non-empty.
fn has_output(lines: &Vec<String>) -> (b: bool)
    ensures
        b == !all_empty(string_views(lines@)),
{
    let mut i: usize = 0;
    while i < lines.len()
        invariant
            i <= lines.len(),
            forall|j: int| 0 <= j < i ==> (#[trigger] string_views(lines@)[j]).len() == 0,
        decreases lines.len() - i,
    {
        if !lines[i].as_str().is_empty() {
            assert(string_views(lines@)[i as int].len() != 0);
            return true;
        }
        i = i + 1;
    }
    false
}

/// The answer to a disassembly.
pub fn disassembly_reply(res: Option<(Vec<String>, usize)>, duration: Duration) -> (r: WorkerResult)
    ensures
        match res {
            None => r is Failure,
            Some((lines, size)) => r == (WorkerResult::Success {
                duration,
                success: !all_empty(string_views(lines@)),
                output_asm: true,
                size,
                lines,
            }),
        },
{
    match res {
        None => WorkerResult::Failure,
        Some((lines, size)) => {
            let success = has_output(&lines);
            WorkerResult::Success { duration, success, output_asm: true, size, lines }
        },
    }
}

/// A row of machine code as an output line: empty for an empty row.
pub open spec fn row_text(b: Seq<u8>, f: HexFormat) -> Seq<char> {
    if b.len() == 0 {
        seq![]
    } else {
        formatted(b, f)
    }
}

/// All rows of machine code as output lines.
pub open spec fn rows_text(rows: Seq<Seq<u8>>, f: HexFormat) -> Seq<Seq<char>> {
    rows.map_values(|b: Seq<u8>| row_text(b, f))
}

/// All rows of machine code one after another.
pub open spec fn concat_rows(rows: Seq<Seq<u8>>) -> Seq<u8>
    decreases rows.len(),
{
    if rows.len() == 0 {
        seq![]
    } else {
        concat_rows(rows.drop_last()) + rows.last()
    }
}

/// Each row in the format, empty rows as empty lines.
pub fn format_rows(rows: &Vec<Vec<u8>>, format: &HexFormat) -> (r: Vec<String>)
    ensures
        string_views(r@) == rows_text(byte_rows(rows@), *format),
{
    let mut out: Vec<String> = Vec::new();
    let mut i: usize = 0;
    while i < rows.len()
        invariant
            i <= rows.len(),
            string_views(out@) == rows_text(byte_rows(rows@.take(i as int)), *format),
        decreases rows.len() - i,
    {
        let ghost prev = out@;
        let line = if rows[i].len() == 0 {
            String::new()
        } else {
            format_bytes(rows[i].as_slice(), format)
        };
        out.push(line);
        assert(byte_rows(rows@.take(i + 1)) == byte_rows(rows@.take(i as int)).push(rows@[i as int]@));
        assert(string_views(out@) =~= string_views(prev).push(line@));
        assert(rows_text(byte_rows(rows@.take(i + 1)), *format) =~= rows_text(
            byte_rows(rows@.take(i as int)),
            *format,
        ).push(row_text(rows@[i as int]@, *format)));
        i = i + 1;
    }
    assert(rows@.take(rows.len() as int) == rows@);
    out
}

/// All rows one after another.
fn concat_bytes(rows: &Vec<Vec<u8>>) -> (r: Vec<u8>)
    ensures
        r@ == concat_rows(byte_rows(rows@)),
{
    let mut out: Vec<u8> = Vec::new();
    let mut i: usize = 0;
    while i < rows.len()
        invariant
            i <= rows.len(),
            out@ == concat_rows(byte_rows(rows@.take(i as int))),
        decreases rows.len() - i,
    {
        let ghost prev = out@;
        let mut k: usize = 0;
        while k < rows[i].len()
            invariant
                i < rows.len(),
                k <= rows[i as int].len(),
                out@ == prev + rows[i as int]@.take(k as int),
            decreases rows[i as int].len() - k,
        {
            out.push(rows[i][k]);
            k = k + 1;
            assert(out@ == prev + rows[i as int]@.take(k as int));
        }
        assert(rows[i as int]@.take(k as int) == rows[i as int]@);
        assert(byte_rows(rows@.take(i + 1)).drop_last() == byte_rows(rows@.take(i as int)));
        assert(byte_rows(rows@.take(i + 1)).last() == rows[i as int]@);
        i = i + 1;
    }
    assert(rows@.take(rows.len() as int) == rows@);
    out
}

/// The output lines of an assembly: one formatted line per source line, or
/// a single line with all the machine code.
pub open spec fn assembly_lines(rows: Seq<Seq<u8>>, config: Config) -> Seq<Seq<char>> {
    if config.multiline {
        rows_text(rows, config.hex)
    } else {
        seq![formatted(concat_rows(rows), config.hex)]
    }
}

/// The answer to an assembly.
pub fn assembly_reply(res: Option<(Vec<Vec<u8>>, usize)>, config: &Config, duration: Duration) -> (r: WorkerResult)
    ensures
        match res {
            None => r is Failure,
            Some((rows, size)) => match r {
                WorkerResult::Success { duration: d, success, output_asm, size: n, lines } => {
                    &&& d == duration
                    &&& string_views(lines@) == assembly_lines(byte_rows(rows@), *config)
                    &&& success == !all_empty(string_views(lines@))
                    &&& !output_asm
                    &&& n == size
                },
                WorkerResult::Failure => false,
            },
        },
{
    match res {
        None => WorkerResult::Failure,
        Some((rows, size)) => {
            let lines = if config.multiline {
                format_rows(&rows, &config.hex)
            } else {
                let all = concat_bytes(&rows);
                let mut one: Vec<String> = Vec::new();
                let line = format_bytes(all.as_slice(), &config.hex);
                one.push(line);
                assert(string_views(one@) =~= seq![line@]);
                one
            };
            let success = has_output(&lines);
            WorkerResult::Success { duration, success, output_asm: false, size, lines }
        },
    }
}

} // verus!
