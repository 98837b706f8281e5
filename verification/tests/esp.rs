use devserial::config::PortConfig;
use devserial::esp::{
    board_info_args, erase_flash_args, erase_log_text, espflash_bin, flash_args, flash_log_text,
    is_available, missing_text, not_run_text, run_result, write_bin_args, write_bin_log_text,
    EspAction, EspEvent, EspJob, EspTool,
};

#[test]
fn test_is_available_caches_result() {
    // Call twice — should return same result, whatever a second look would find
    let mut tool = EspTool::new();
    let first = is_available(&mut tool, true);
    let second = is_available(&mut tool, false);
    assert_eq!(first, second);
    let mut tool = EspTool::new();
    let first = is_available(&mut tool, false);
    let second = is_available(&mut tool, true);
    assert_eq!(first, second);
    assert!(!first);
}

#[test]
fn test_espflash_bin_returns_espflash() {
    // Even if not available, the binary name should be "espflash"
    assert_eq!(espflash_bin(), "espflash");
}

#[test]
fn command_lines() {
    assert_eq!(
        flash_args("/dev/ttyUSB0", "fw.elf", Some(460_800), true),
        vec!["flash", "--port", "/dev/ttyUSB0", "--baud", "460800", "--monitor", "fw.elf"]
    );
    assert_eq!(flash_args("p", "fw", None, false), vec!["flash", "--port", "p", "fw"]);
    assert_eq!(board_info_args("p"), vec!["board-info", "--port", "p"]);
    assert_eq!(erase_flash_args("p"), vec!["erase-flash", "--port", "p"]);
    assert_eq!(
        write_bin_args("p", "boot.bin", "0x1000"),
        vec!["write-bin", "--port", "p", "0x1000", "boot.bin"]
    );
}

#[test]
fn outcomes_of_a_run() {
    assert_eq!(run_result(true, b"out", b"", "0"), Ok("out".to_string()));
    assert_eq!(run_result(true, b"out", b"note", "0"), Ok("out\nnote".to_string()));
    assert_eq!(run_result(true, b"", b"note", "0"), Ok("note".to_string()));
    assert_eq!(run_result(false, b"out", b"why", "1"), Err("why".to_string()));
    assert_eq!(run_result(false, b"out", b"", "1"), Err("out".to_string()));
    assert_eq!(
        run_result(false, b"", b"", "exit status: 1"),
        Err("espflash exited with status exit status: 1".to_string())
    );
    assert_eq!(run_result(true, &[0x61, 0xff], b"", "0"), Ok("a\u{fffd}".to_string()));
}

#[test]
fn texts_about_runs() {
    assert_eq!(not_run_text("no such file"), "failed to run espflash: no such file");
    assert!(missing_text().contains("cargo install espflash"));
    assert_eq!(flash_log_text("fw.elf", true), "━━━ FLASH fw.elf → OK ━━━");
    assert_eq!(erase_log_text(false), "━━━ ERASE FLASH → FAILED ━━━");
    assert_eq!(write_bin_log_text("a.bin", "0x10", true), "━━━ WRITE-BIN a.bin @ 0x10 → OK ━━━");
}

#[test]
fn a_port_is_released_and_reopened() {
    let config = PortConfig { baudrate: 9600, ..PortConfig::default() };
    let mut job = EspJob::new();
    assert!(matches!(job.step(EspEvent::Asked { managed: true }), EspAction::CloseMonitor));
    assert!(matches!(job.step(EspEvent::MonitorClosed), EspAction::Release));
    assert!(matches!(job.step(EspEvent::Released(Some(config))), EspAction::Run));
    assert!(matches!(job.step(EspEvent::Done), EspAction::Wait { ms: 500 }));
    assert!(matches!(job.step(EspEvent::Waited), EspAction::Reopen(c) if c.baudrate == 9600));
    assert!(matches!(job.step(EspEvent::Reopened), EspAction::Finish));

    let mut free = EspJob::new();
    assert!(matches!(free.step(EspEvent::Asked { managed: false }), EspAction::Run));
    assert!(matches!(free.step(EspEvent::Done), EspAction::Finish));
    assert!(matches!(free.step(EspEvent::Released(None)), EspAction::Run));
    assert!(matches!(free.step(EspEvent::Done), EspAction::Finish));
    assert!(matches!(free.step(EspEvent::Waited), EspAction::Finish));
}
