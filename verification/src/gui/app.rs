//! The interactive session's settings and state, and how keys change them.
use vstd::prelude::*;

use crate::output::{
    decimal, format_label, next_format, other_syntax, prev_format, push_decimal, syntax_label, AsmSyntax, HexFormat,
};
use crate::text::{append_chars, chars_of, string_of};

verus! {

/// Settings shared by the interface and the worker.
#[derive(Clone, Copy, Debug, PartialEq, Eq, Structural)]
pub struct Config {
    pub address: u64,
    pub multiline: bool,
    pub mode: u8,
    pub syntax: AsmSyntax,
    pub hex: HexFormat,
}

/// The interface's state apart from its two text areas: which area has the
/// focus (0 or 1), what the last result was, and the settings.
pub struct AppState {
    pub selected: usize,
    /// Time the last result took, in nanoseconds.
    pub last_time: u64,
    pub last_size: usize,
    pub last_was_asm: bool,
    pub last_was_success: bool,
    pub config: Config,
}

/// A key press, as far as the state is concerned.
#[derive(Clone, Copy, Debug, PartialEq, Eq, Structural)]
pub enum KeyCommand {
    /// Escape or Ctrl+Q.
    Quit,
    /// Ctrl+Shift+Left/Right: move the focus to the other area.
    SwapArea,
    /// Ctrl+Up.
    AddressUp,
    /// Ctrl+Down.
    AddressDown,
    /// Ctrl+Right.
    FormatRight,
    /// Ctrl+Left.
    FormatLeft,
    /// Ctrl+C or Ctrl+Y.
    Copy,
    /// Ctrl+S.
    CycleSyntax,
    /// Ctrl+X.
    ToggleArch,
    /// Ctrl+T.
    ToggleMultiline,
    /// Ctrl+Alt+character: the character was typed into the focused area.
    TypedChar,
    /// Any other key; `changed` tells whether the focused area's text changed.
    Edit { changed: bool },
}

/// What the interface has to do after a key.
#[derive(Clone, Copy, Debug, PartialEq, Eq, Structural)]
pub struct KeyEffect {
    /// Leave the session.
    pub quit: bool,
    /// Send the focused area's text to the worker again.
    pub needs_update: bool,
    /// Send the settings to the worker.
    pub config_changed: bool,
    /// Redraw the output area's frame.
    pub refresh_output: bool,
}

/// The settings after a key.
pub open spec fn config_after(c: Config, last_was_asm: bool, k: KeyCommand) -> Config {
    match k {
        KeyCommand::AddressUp => Config {
            address: if c.address + 0x100 > u64::MAX {
                u64::MAX
            } else {
                (c.address + 0x100) as u64
            },
            ..c
        },
        KeyCommand::AddressDown => Config {
            address: if c.address < 0x100 {
                0
            } else {
                (c.address - 0x100) as u64
            },
            ..c
        },
        KeyCommand::FormatRight => if last_was_asm {
            Config { syntax: other_syntax(c.syntax), ..c }
        } else {
            Config { hex: next_format(c.hex), ..c }
        },
        KeyCommand::FormatLeft => if last_was_asm {
            Config { syntax: other_syntax(c.syntax), ..c }
        } else {
            Config { hex: prev_format(c.hex), ..c }
        },
        KeyCommand::CycleSyntax => Config { syntax: other_syntax(c.syntax), ..c },
        KeyCommand::ToggleArch => Config {
            mode: if c.mode == 64 {
                86
            } else {
                64
            },
            ..c
        },
        KeyCommand::ToggleMultiline => Config { multiline: !c.multiline, ..c },
        _ => c,
    }
}

/// The effect of a key.
pub open spec fn effect_of(k: KeyCommand) -> KeyEffect {
    match k {
        KeyCommand::Quit => KeyEffect {
            quit: true,
            needs_update: false,
            config_changed: false,
            refresh_output: false,
        },
        KeyCommand::SwapArea => KeyEffect {
            quit: false,
            needs_update: true,
            config_changed: false,
            refresh_output: true,
        },
        KeyCommand::Copy => KeyEffect {
            quit: false,
            needs_update: false,
            config_changed: false,
            refresh_output: false,
        },
        KeyCommand::TypedChar => KeyEffect {
            quit: false,
            needs_update: true,
            config_changed: false,
            refresh_output: false,
        },
        KeyCommand::Edit { changed } => KeyEffect {
            quit: false,
            needs_update: changed,
            config_changed: false,
            refresh_output: false,
        },
        _ => KeyEffect {
            quit: false,
            needs_update: true,
            config_changed: true,
            refresh_output: false,
        },
    }
}

impl AppState {
    /// The state at the start of a session: focus on the first area, no
    /// result yet (taken as a successful disassembly of nothing).
    pub fn new(config: Config) -> (s: Self)
        ensures
            s.selected == 0,
            s.last_time == 0,
            s.last_size == 0,
            s.last_was_asm,
            s.last_was_success,
            s.config == config,
    {
        AppState {
            selected: 0,
            last_time: 0,
            last_size: 0,
            last_was_asm: true,
            last_was_success: true,
            config,
        }
    }

    /// The index of the area without the focus.
    pub fn unselected(&self) -> (r: usize)
        ensures
            r as int == (self.selected + 1) % 2,
    {
        if self.selected % 2 == 0 {
            1
        } else {
            0
        }
    }

    /// Moves the focus to the other area.
    pub fn toggle_focus(&mut self)
        ensures
            final(self).selected as int == (old(self).selected + 1) % 2,
            final(self).last_time == old(self).last_time,
            final(self).last_size == old(self).last_size,
            final(self).last_was_asm == old(self).last_was_asm,
            final(self).last_was_success == old(self).last_was_success,
            final(self).config == old(self).config,
    {
        self.selected = self.unselected();
    }

    /// Takes in a result of the worker (its time in nanoseconds).
    pub fn record_result(&mut self, success: bool, duration_ns: u64, size: usize, disasm_shown: bool)
        ensures
            final(self).selected == old(self).selected,
            final(self).last_time == duration_ns,
            final(self).last_size == size,
            final(self).last_was_asm == disasm_shown,
            final(self).last_was_success == success,
            final(self).config == old(self).config,
    {
        self.last_was_success = success;
        self.last_time = duration_ns;
        self.last_size = size;
        self.last_was_asm = disasm_shown;
    }

    /// Applies a key: the focus swap also flips which kind of output is
    /// shown; up and down move the address by 0x100 (saturating); right and
    /// left switch the syntax (after a disassembly) or step the byte format
    /// forward and back (after an assembly); the other shortcuts cycle the syntax, switch between 64-
    /// and 32-bit mode, and toggle multi-line output.
    pub fn apply_key(&mut self, key: KeyCommand) -> (e: KeyEffect)
        ensures
            e == effect_of(key),
            final(self).config == config_after(old(self).config, old(self).last_was_asm, key),
            key == KeyCommand::SwapArea ==> {
                &&& final(self).selected as int == (old(self).selected + 1) % 2
                &&& final(self).last_was_asm == !old(self).last_was_asm
            },
            key != KeyCommand::SwapArea ==> {
                &&& final(self).selected == old(self).selected
                &&& final(self).last_was_asm == old(self).last_was_asm
            },
            final(self).last_time == old(self).last_time,
            final(self).last_size == old(self).last_size,
            final(self).last_was_success == old(self).last_was_success,
    {
        let quiet = KeyEffect {
            quit: false,
            needs_update: false,
            config_changed: false,
            refresh_output: false,
        };
        let changed = KeyEffect {
            quit: false,
            needs_update: true,
            config_changed: true,
            refresh_output: false,
        };
        match key {
            KeyCommand::Quit => KeyEffect { quit: true, ..quiet },
            KeyCommand::SwapArea => {
                self.toggle_focus();
                self.last_was_asm = !self.last_was_asm;
                KeyEffect { needs_update: true, refresh_output: true, ..quiet }
            },
            KeyCommand::AddressUp => {
                self.config.address = self.config.address.saturating_add(0x100);
                changed
            },
            KeyCommand::AddressDown => {
                self.config.address = self.config.address.saturating_sub(0x100);
                changed
            },
            KeyCommand::FormatRight => {
                if self.last_was_asm {
                    self.config.syntax = self.config.syntax.next();
                } else {
                    self.config.hex = self.config.hex.next();
                }
                changed
            },
            KeyCommand::FormatLeft => {
                if self.last_was_asm {
                    self.config.syntax = self.config.syntax.next();
                } else {
                    self.config.hex = self.config.hex.last();
                }
                changed
            },
            KeyCommand::Copy => quiet,
            KeyCommand::CycleSyntax => {
                self.config.syntax = self.config.syntax.next();
                changed
            },
            KeyCommand::ToggleArch => {
                self.config.mode = if self.config.mode == 64 {
                    86
                } else {
                    64
                };
                changed
            },
            KeyCommand::ToggleMultiline => {
                self.config.multiline = !self.config.multiline;
                changed
            },
            KeyCommand::TypedChar => KeyEffect { needs_update: true, ..quiet },
            KeyCommand::Edit { changed: c } => KeyEffect { needs_update: c, ..quiet },
        }
    }
}

// ---------------------------------------------------------------------------
// Frame titles
// ---------------------------------------------------------------------------

/// Upper-case hex digits of a number, without leading zeros.
pub open spec fn hex_number(n: nat) -> Seq<char>
    decreases n,
{
    if n < 16 {
        seq![crate::hexcodec::upper_digit(n as int)]
    } else {
        hex_number(n / 16).push(crate::hexcodec::upper_digit((n % 16) as int))
    }
}

/// `<syntax> | x<mode>`.
pub open spec fn engine_label(c: Config) -> Seq<char> {
    syntax_label(c.syntax) + " | x"@ + decimal(c.mode as nat)
}

/// The title of the input area.
pub open spec fn input_title_text(c: Config, disasm_shown: bool) -> Seq<char> {
    "| "@ + (if disasm_shown {
        "Disassembling"@
    } else {
        engine_label(c)
    }) + " | offset 0x"@ + hex_number(c.address as nat) + " |"@
}

/// The title of the output area, up to the time taken.
pub open spec fn output_title_text(c: Config, disasm_shown: bool, size: usize) -> Seq<char> {
    "| "@ + (if disasm_shown {
        engine_label(c)
    } else {
        format_label(c.hex) + (if c.multiline {
            " | multiline: ON"@
        } else {
            " | multiline: OFF"@
        })
    }) + " | "@ + decimal(size as nat) + " bytes | Took "@
}

/// Appends the upper-case hex digits of `n`.
fn push_hex_number(n: u64, out: &mut Vec<char>)
    ensures
        final(out)@ == old(out)@ + hex_number(n as nat),
    decreases n,
{
    if n >= 16 {
        push_hex_number(n / 16, out);
    }
    let d = (n % 16) as u8;
    let c = if d < 10 {
        (d + 48) as char
    } else {
        (d + 55) as char
    };
    out.push(c);
    proof {
        if n >= 16 {
            assert(hex_number(n as nat) == hex_number((n / 16) as nat).push(
                crate::hexcodec::upper_digit((n % 16) as int),
            ));
        }
    }
}

/// Appends `<syntax> | x<mode>`.
fn push_engine_label(c: &Config, out: &mut Vec<char>)
    ensures
        final(out)@ == old(out)@ + engine_label(*c),
{
    append_chars(out, &chars_of(c.syntax.as_str()));
    append_chars(out, &chars_of(" | x"));
    push_decimal(c.mode as usize, out);
}

/// The title of the input area: what the input is taken as, and the
/// address, as in `| Disassembling | offset 0x100 |`.
pub fn input_title(config: &Config, disasm_shown: bool) -> (r: String)
    ensures
        r@ == input_title_text(*config, disasm_shown),
{
    let mut out = chars_of("| ");
    if disasm_shown {
        append_chars(&mut out, &chars_of("Disassembling"));
    } else {
        push_engine_label(config, &mut out);
    }
    append_chars(&mut out, &chars_of(" | offset 0x"));
    push_hex_number(config.address, &mut out);
    append_chars(&mut out, &chars_of(" |"));
    string_of(&out)
}

/// The title of the output area up to the time taken, as in
/// `| Intel | x64 | 3 bytes | Took `.
pub fn output_title_prefix(config: &Config, disasm_shown: bool, size: usize) -> (r: String)
    ensures
        r@ == output_title_text(*config, disasm_shown, size),
{
    let mut out = chars_of("| ");
    if disasm_shown {
        push_engine_label(config, &mut out);
    } else {
        append_chars(&mut out, &chars_of(config.hex.as_str()));
        if config.multiline {
            append_chars(&mut out, &chars_of(" | multiline: ON"));
        } else {
            append_chars(&mut out, &chars_of(" | multiline: OFF"));
        }
    }
    append_chars(&mut out, &chars_of(" | "));
    push_decimal(size, &mut out);
    append_chars(&mut out, &chars_of(" bytes | Took "));
    string_of(&out)
}

} // verus!
