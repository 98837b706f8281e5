use devserial::config::{Config, GlobalConfig, MacroConfig, MacroStep, PortConfig};
use devserial::control::{
    builtin_macro, closed_text, decode_payload, labels_of, macro_log_text, macro_text, open_config,
    opened_text, parse_monitor_line, resolve_macro, signal_failure_text, signal_ops, signal_text,
    wrote_text, DeviceOp, MonitorCommand, Notifier, OpenMonitors,
};
use devserial::monitor::{data_line, dtr_line, rts_line};
use devserial::server::ConfigurePortParams;

/// The defaults in a data directory.
fn defaults() -> Config {
    Config::with_global(GlobalConfig::with_dirs("./data".into(), "./data/archive".into()))
}

fn open_params(baudrate: Option<u32>) -> ConfigurePortParams {
    ConfigurePortParams {
        port_name: "/dev/ttyUSB0".into(),
        baudrate,
        data_bits: None,
        parity: None,
        stop_bits: None,
    }
}

fn labels(ops: &Vec<DeviceOp>) -> Vec<String> {
    labels_of(ops)
}

#[test]
fn test_serial_open_invalid_baud() {
    let result = open_config(&defaults(), &open_params(Some(0)));
    assert!(result.is_err());
    assert_eq!(result.unwrap_err(), "invalid baud rate: must be > 0");
}

#[test]
fn explicit_parameters_override_the_configuration() {
    let mut config = defaults();
    let mut base = PortConfig::default();
    base.baudrate = 9600;
    base.flow_control = "hardware".into();
    base.max_buffer_lines = 10;
    config.ports.insert("/dev/ttyUSB0", base);
    let c = open_config(&config, &open_params(None)).unwrap();
    assert_eq!((c.baudrate, c.flow_control.as_str(), c.max_buffer_lines), (9600, "hardware", 10));
    let mut p = open_params(Some(300));
    p.parity = Some("even".into());
    p.data_bits = Some(7);
    p.stop_bits = Some(2);
    let c = open_config(&config, &p).unwrap();
    assert_eq!((c.baudrate, c.data_bits, c.stop_bits), (300, 7, 2));
    assert_eq!((c.parity.as_str(), c.max_buffer_lines), ("even", 10));
    assert_eq!(opened_text("/dev/ttyUSB0", &c), "Opened /dev/ttyUSB0 (300baud, 7e2)");
    let mut c = PortConfig::default();
    c.parity = String::new();
    assert_eq!(opened_text("p", &c), "Opened p (115200baud, 8N1)");
    assert_eq!(closed_text("p"), "Closed p");
}

#[test]
fn payloads() {
    assert_eq!(decode_payload("AT\r\n"), Ok(b"AT\r\n".to_vec()));
    assert_eq!(decode_payload("0x0D0A"), Ok(vec![13, 10]));
    assert_eq!(decode_payload("0Xde AD"), Ok(vec![0xde, 0xad]));
    assert_eq!(decode_payload("é"), Ok(vec![0xc3, 0xa9]));
    assert_eq!(decode_payload("0x0"), Err("invalid hex: odd number of hex digits".into()));
    assert_eq!(decode_payload("0xzz"), Err("invalid hex: invalid digit found in string".into()));
    assert_eq!(decode_payload("0x"), Ok(Vec::new()));
    assert_eq!(decode_payload(""), Ok(Vec::new()));
    assert_eq!(wrote_text(2, "p"), "Wrote 2 bytes to p");
}

#[test]
fn signals() {
    assert_eq!(
        signal_ops(None, None).err(),
        Some("at least one of dtr or rts must be specified".to_string())
    );
    let ops = signal_ops(Some(true), Some(false)).unwrap();
    assert_eq!(signal_text(&ops, "p"), "Set DTR=HIGH, RTS=LOW on p");
    assert_eq!(signal_failure_text(&ops[0], "gone"), "failed to set DTR: gone");
    assert_eq!(signal_failure_text(&ops[1], "gone"), "failed to set RTS: gone");
    let ops = signal_ops(None, Some(true)).unwrap();
    assert_eq!(signal_text(&ops, "p"), "Set RTS=HIGH on p");
}

#[test]
fn built_in_macros() {
    assert_eq!(labels(&builtin_macro("reset").unwrap()), vec!["DTR=LOW", "delay 100ms", "DTR=HIGH"]);
    assert_eq!(
        labels(&builtin_macro("enter_bootloader").unwrap()),
        vec!["RTS=HIGH", "DTR=LOW", "delay 50ms", "DTR=HIGH", "delay 50ms", "RTS=LOW"]
    );
    let b = builtin_macro("break").unwrap();
    assert_eq!(labels(&b), vec!["write 1 bytes"]);
    assert!(matches!(&b[0], DeviceOp::Send(v) if *v == vec![0u8]));
    assert!(builtin_macro("other").is_none());
}

#[test]
fn user_macros_come_first() {
    let mut config = defaults();
    let steps = vec![
        MacroStep::Write { value: "0x41".into() },
        MacroStep::Write { value: "0xzz".into() },
        MacroStep::Write { value: "hi".into() },
        MacroStep::Delay { ms: 5 },
        MacroStep::Rts { value: true },
    ];
    config.macros.insert("reset", MacroConfig { description: "mine".into(), steps });
    let ops = resolve_macro(&config, "reset").unwrap();
    assert_eq!(
        labels(&ops),
        vec!["write 1 bytes", "write 0 bytes", "write 2 bytes", "delay 5ms", "RTS=HIGH"]
    );
    assert_eq!(ops[0].failure_text("x"), "write error: x");
    assert_eq!(ops[4].failure_text("x"), "RTS error: x");
    let e = resolve_macro(&config, "nope").err().unwrap();
    assert_eq!(e, "unknown macro 'nope'. Available: reset, reset, enter_bootloader, break");
    assert!(resolve_macro(&config, "break").is_ok());
}

#[test]
fn macro_texts() {
    let ops = builtin_macro("reset").unwrap();
    assert_eq!(
        macro_log_text("reset", &ops),
        "━━━ MACRO 'reset' executed (DTR=LOW → delay 100ms → DTR=HIGH) ━━━"
    );
    assert_eq!(
        macro_text("reset", "p", &ops),
        "Executed 'reset' on p (3 steps: DTR=LOW → delay 100ms → DTR=HIGH)"
    );
}

#[test]
fn lines_from_a_monitor_window() {
    let ops = |line: &str| match parse_monitor_line(line) {
        MonitorCommand::Ops(ops) => labels_of(&ops),
        _ => Vec::new(),
    };
    assert_eq!(ops("__macro: reset "), vec!["DTR=LOW", "delay 100ms", "DTR=HIGH"]);
    assert_eq!(ops("__macro:enter_bootloader").len(), 6);
    assert!(matches!(parse_monitor_line("__macro:break"), MonitorCommand::Ignore));
    assert_eq!(ops(dtr_line(true)), vec!["DTR=HIGH"]);
    assert_eq!(ops(dtr_line(false)), vec!["DTR=LOW"]);
    assert_eq!(ops(rts_line(true)), vec!["RTS=HIGH"]);
    assert_eq!(ops(rts_line(false)), vec!["RTS=LOW"]);
    assert!(matches!(parse_monitor_line("__signal:dtr:2"), MonitorCommand::Ignore));
    assert!(matches!(parse_monitor_line("hello"), MonitorCommand::Ignore));
    assert!(matches!(parse_monitor_line("__data:4Zff0"), MonitorCommand::Data(b) if b == vec![0xff]));
}

#[test]
fn data_of_a_window_arrives() {
    let all: Vec<u8> = (0..=255).collect();
    match parse_monitor_line(&data_line(&all)) {
        MonitorCommand::Data(b) => assert_eq!(b, all),
        _ => unreachable!(),
    }
}

#[test]
fn one_window_for_each_port() {
    let mut m = OpenMonitors::new();
    assert!(m.check_open("p").is_ok());
    assert_eq!(m.opened("p"), "Monitor opened for p");
    assert_eq!(m.check_open("p"), Err("monitor already open for 'p'".into()));
    assert!(m.check_open("q").is_ok());
    assert_eq!(m.close("q"), Err("no monitor open for 'q'".into()));
    assert_eq!(m.close("p"), Ok("Monitor closed for p".into()));
    assert_eq!(m.close("p"), Err("no monitor open for 'p'".into()));
}

#[test]
fn windows_are_told_of_changes() {
    let mut n = Notifier::new();
    assert!(!n.changed(0));
    assert!(n.changed(3));
    assert!(!n.changed(3));
    assert!(n.changed(0));
}
