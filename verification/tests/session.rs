use qasm::gui::app::{input_title, output_title_prefix, AppState, Config, KeyCommand, KeyEffect};
use qasm::output::{AsmSyntax, HexFormat};

fn config() -> Config {
    Config {
        address: 0x100,
        multiline: true,
        mode: 64,
        syntax: AsmSyntax::Intel,
        hex: HexFormat::Pretty,
    }
}

#[test]
fn new_state() {
    let s = AppState::new(config());
    assert_eq!(s.selected, 0);
    assert_eq!(s.last_size, 0);
    assert!(s.last_was_asm);
    assert!(s.last_was_success);
    assert_eq!(s.config, config());
    assert_eq!(s.last_time, 0);
}

#[test]
fn focus_toggles() {
    let mut s = AppState::new(config());
    assert_eq!(s.unselected(), 1);
    s.toggle_focus();
    assert_eq!(s.selected, 1);
    assert_eq!(s.unselected(), 0);
    s.toggle_focus();
    assert_eq!(s.selected, 0);
}

#[test]
fn swap_key_flips_focus_and_kind() {
    let mut s = AppState::new(config());
    let e = s.apply_key(KeyCommand::SwapArea);
    assert_eq!(e, KeyEffect { quit: false, needs_update: true, config_changed: false, refresh_output: true });
    assert_eq!(s.selected, 1);
    assert!(!s.last_was_asm);
    s.apply_key(KeyCommand::SwapArea);
    assert_eq!(s.selected, 0);
    assert!(s.last_was_asm);
}

#[test]
fn address_keys_saturate() {
    let mut s = AppState::new(config());
    let e = s.apply_key(KeyCommand::AddressDown);
    assert!(e.config_changed && e.needs_update && !e.quit);
    assert_eq!(s.config.address, 0);
    s.apply_key(KeyCommand::AddressDown);
    assert_eq!(s.config.address, 0);
    s.apply_key(KeyCommand::AddressUp);
    assert_eq!(s.config.address, 0x100);
    s.config.address = u64::MAX - 5;
    s.apply_key(KeyCommand::AddressUp);
    assert_eq!(s.config.address, u64::MAX);
}

#[test]
fn arrow_keys_cycle_syntax_or_format() {
    let mut s = AppState::new(config());
    s.apply_key(KeyCommand::FormatRight);
    assert_eq!(s.config.syntax, AsmSyntax::Att);
    assert_eq!(s.config.hex, HexFormat::Pretty);
    s.apply_key(KeyCommand::FormatLeft);
    assert_eq!(s.config.syntax, AsmSyntax::Intel);
    s.last_was_asm = false;
    s.apply_key(KeyCommand::FormatLeft);
    assert_eq!(s.config.hex, HexFormat::StringLiteral);
    s.apply_key(KeyCommand::FormatRight);
    assert_eq!(s.config.hex, HexFormat::Pretty);
    s.apply_key(KeyCommand::FormatRight);
    assert_eq!(s.config.hex, HexFormat::RawHex);
    s.apply_key(KeyCommand::FormatLeft);
    assert_eq!(s.config.hex, HexFormat::Pretty);
    assert_eq!(s.config.syntax, AsmSyntax::Intel);
}

#[test]
fn toggles() {
    let mut s = AppState::new(config());
    s.apply_key(KeyCommand::ToggleArch);
    assert_eq!(s.config.mode, 86);
    s.apply_key(KeyCommand::ToggleArch);
    assert_eq!(s.config.mode, 64);
    s.config.mode = 32;
    s.apply_key(KeyCommand::ToggleArch);
    assert_eq!(s.config.mode, 64);
    s.apply_key(KeyCommand::ToggleMultiline);
    assert!(!s.config.multiline);
    s.apply_key(KeyCommand::CycleSyntax);
    assert_eq!(s.config.syntax, AsmSyntax::Att);
    s.apply_key(KeyCommand::CycleSyntax);
    assert_eq!(s.config.syntax, AsmSyntax::Intel);
}

#[test]
fn quiet_keys() {
    let mut s = AppState::new(config());
    assert!(s.apply_key(KeyCommand::Quit).quit);
    let e = s.apply_key(KeyCommand::Copy);
    assert!(!e.quit && !e.needs_update && !e.config_changed && !e.refresh_output);
    assert!(s.apply_key(KeyCommand::TypedChar).needs_update);
    assert!(s.apply_key(KeyCommand::Edit { changed: true }).needs_update);
    assert!(!s.apply_key(KeyCommand::Edit { changed: false }).needs_update);
    assert_eq!(s.config, config());
}

#[test]
fn record_result_updates_last() {
    let mut s = AppState::new(config());
    s.record_result(false, 3_000_000, 7, false);
    assert!(!s.last_was_success);
    assert_eq!(s.last_time, 3_000_000);
    assert_eq!(s.last_size, 7);
    assert!(!s.last_was_asm);
}

#[test]
fn titles() {
    let c = config();
    assert_eq!(input_title(&c, true), "| Disassembling | offset 0x100 |");
    assert_eq!(input_title(&Config { address: 0, mode: 86, syntax: AsmSyntax::Att, ..c }, false), "| AT&T | x86 | offset 0x0 |");
    assert_eq!(input_title(&Config { address: 0xdeadBEEF, ..c }, true), "| Disassembling | offset 0xDEADBEEF |");
    assert_eq!(output_title_prefix(&c, true, 3), "| Intel | x64 | 3 bytes | Took ");
    assert_eq!(output_title_prefix(&c, false, 12), "| Pretty | multiline: ON | 12 bytes | Took ");
    assert_eq!(
        output_title_prefix(&Config { multiline: false, hex: HexFormat::CStyleArray, ..c }, false, 0),
        "| C | multiline: OFF | 0 bytes | Took "
    );
}
