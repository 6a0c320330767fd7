use std::time::Duration;

use qasm::gui::app::Config;
use qasm::input::oneshot::{input_text, render_assembly, render_disassembly};
use qasm::output::{AsmSyntax, HexFormat};
use qasm::worker::control::{assembly_reply, disassembly_reply, fold_events, format_rows, latest_command, update_config, wake_up, WakeUp};
use qasm::worker::message::WorkerCommand;
use qasm::worker::message::{WorkerEvent, WorkerResult};

fn config(multiline: bool) -> Config {
    Config { address: 0, multiline, mode: 64, syntax: AsmSyntax::Intel, hex: HexFormat::Pretty }
}

#[test]
fn last_config_wins() {
    let a = config(true);
    let b = Config { address: 5, ..a };
    let evs = vec![
        WorkerEvent::ConfigChange { config: a },
        WorkerEvent::ConfigChange { config: b },
    ];
    assert_eq!(fold_events(&evs), Some(Some(b)));
    assert_eq!(fold_events(&vec![]), Some(None));
}

#[test]
fn exit_wins() {
    let evs = vec![WorkerEvent::ConfigChange { config: config(true) }, WorkerEvent::Exit];
    assert_eq!(fold_events(&evs), None);
    assert_eq!(fold_events(&vec![WorkerEvent::Exit, WorkerEvent::ConfigChange { config: config(true) }]), None);
}

#[test]
fn config_update_reconfigures_only_on_change() {
    let mut cs = qasm::engine::build_capstone(qasm::engine::CpuMode::Bits64, None).unwrap();
    let mut cur = config(true);
    assert_eq!(update_config(&mut cs, &mut cur, None), Ok(false));
    assert_eq!(update_config(&mut cs, &mut cur, Some(config(true))), Ok(false));
    let next = Config { syntax: AsmSyntax::Att, mode: 86, ..cur };
    assert_eq!(update_config(&mut cs, &mut cur, Some(next)), Ok(true));
    assert_eq!(cur, next);
}

#[test]
fn disassembly_replies() {
    let d = Duration::from_millis(1);
    match disassembly_reply(Some((vec!["nop".to_string()], 1)), d) {
        WorkerResult::Success { duration, success, output_asm, size, lines } => {
            assert_eq!(duration, d);
            assert!(success);
            assert!(output_asm);
            assert_eq!(size, 1);
            assert_eq!(lines, vec!["nop".to_string()]);
        }
        WorkerResult::Failure => panic!("expected a success"),
    }
    match disassembly_reply(Some((vec![String::new()], 0)), d) {
        WorkerResult::Success { success, .. } => assert!(!success),
        WorkerResult::Failure => panic!("expected a success"),
    }
    assert!(matches!(disassembly_reply(None, d), WorkerResult::Failure));
}

#[test]
fn assembly_replies() {
    let d = Duration::from_millis(2);
    let rows = vec![vec![0x90u8], vec![], vec![0xc3]];
    match assembly_reply(Some((rows.clone(), 2)), &config(true), d) {
        WorkerResult::Success { success, output_asm, size, lines, .. } => {
            assert!(success);
            assert!(!output_asm);
            assert_eq!(size, 2);
            assert_eq!(lines, vec!["0x90".to_string(), String::new(), "0xC3".to_string()]);
        }
        WorkerResult::Failure => panic!("expected a success"),
    }
    match assembly_reply(Some((rows, 2)), &Config { hex: HexFormat::RawHex, ..config(false) }, d) {
        WorkerResult::Success { lines, .. } => assert_eq!(lines, vec!["90c3".to_string()]),
        WorkerResult::Failure => panic!("expected a success"),
    }
    match assembly_reply(Some((vec![vec![]], 0)), &config(true), d) {
        WorkerResult::Success { success, .. } => assert!(!success),
        WorkerResult::Failure => panic!("expected a success"),
    }
    assert!(matches!(assembly_reply(None, &config(true), d), WorkerResult::Failure));
}

#[test]
fn formatted_rows() {
    let rows = vec![vec![0x0fu8, 0x05], vec![]];
    assert_eq!(
        format_rows(&rows, &HexFormat::StringLiteral),
        vec!["\"0x0F, 0x05\"".to_string(), String::new()]
    );
}

#[test]
fn one_shot_rendering() {
    assert_eq!(render_disassembly(Some((vec!["nop".to_string(), "ret".to_string()], 2))), "nop\nret");
    assert_eq!(render_disassembly(None), "Failed decoding hex");
    assert_eq!(
        render_assembly(Some((vec![vec![0x90], vec![]], 1)), &HexFormat::Pretty),
        "0x90\n"
    );
    assert_eq!(render_assembly(None, &HexFormat::Pretty), "Failed assembling code");
}

#[test]
fn one_shot_input_text() {
    assert_eq!(input_text(Some(vec![0xde, 0xad]), "ignored".to_string()), "dead");
    assert_eq!(input_text(None, "nop".to_string()), "nop");
}

#[test]
fn cli_decides_one_shot() {
    let cli = qasm::cli::Cli {
        mode: 64,
        syntax: AsmSyntax::Intel,
        format: HexFormat::Pretty,
        address: 0,
        input: None,
        data: vec!["mov".to_string(), "eax,".to_string(), "1".to_string()],
    };
    let raw = cli.raw_input();
    assert_eq!(raw, "mov eax, 1");
    assert!(cli.is_one_shot(&raw));
    let blank = qasm::cli::Cli { data: vec![" ".to_string()], ..cli };
    let raw = blank.raw_input();
    assert!(!blank.is_one_shot(&raw));
    let with_file = qasm::cli::Cli { input: Some(std::path::PathBuf::from("x.bin")), ..blank };
    assert!(with_file.is_one_shot(&raw));
}

#[test]
fn latest_command_wins() {
    let c = |s: &str| WorkerCommand { input: vec![s.to_string()] };
    let r = latest_command(Some(c("a")), vec![c("b"), c("c")]);
    assert_eq!(r.map(|w| w.input), Some(vec!["c".to_string()]));
    let r = latest_command(Some(c("a")), vec![]);
    assert_eq!(r.map(|w| w.input), Some(vec!["a".to_string()]));
    assert!(latest_command(None, vec![]).is_none());
}

#[test]
fn wake_up_answers_last_command_under_last_settings() {
    let mut cs = qasm::engine::build_capstone(qasm::engine::CpuMode::Bits64, None).unwrap();
    let mut cfg = config(true);
    let c = |s: &str| WorkerCommand { input: vec![s.to_string()] };
    let a = Config { address: 7, ..cfg };
    let b = Config { syntax: AsmSyntax::Att, ..cfg };
    let evs = vec![WorkerEvent::ConfigChange { config: a }, WorkerEvent::ConfigChange { config: b }];
    match wake_up(&mut cs, &mut cfg, &evs, Some(c("x")), vec![c("y"), c("z")]) {
        WakeUp::Answer { rebuild, command } => {
            assert!(rebuild);
            assert_eq!(command.map(|w| w.input), Some(vec!["z".to_string()]));
        }
        WakeUp::Stop => panic!("expected an answer"),
    }
    assert_eq!(cfg, b);
    match wake_up(&mut cs, &mut cfg, &vec![WorkerEvent::ConfigChange { config: b }], None, vec![]) {
        WakeUp::Answer { rebuild, command } => {
            assert!(!rebuild);
            assert!(command.is_none());
        }
        WakeUp::Stop => panic!("expected an answer"),
    }
}

#[test]
fn wake_up_stops_on_exit() {
    let mut cs = qasm::engine::build_capstone(qasm::engine::CpuMode::Bits64, None).unwrap();
    let mut cfg = config(true);
    let evs = vec![WorkerEvent::Exit, WorkerEvent::ConfigChange { config: Config { address: 9, ..cfg } }];
    let cmd = WorkerCommand { input: vec!["90".to_string()] };
    assert!(matches!(wake_up(&mut cs, &mut cfg, &evs, Some(cmd), vec![]), WakeUp::Stop));
    assert_eq!(cfg, config(true));
}
