use devserial::hex::{hex_decode, hex_decode_lossy, hex_encode, hex_format};
use devserial::monitor::{
    bootloader_line, open_failure_text, reset_line, tone, window_title, DisplayLine, LineEnding,
    MonitorApp, Shown, Tone,
};
use devserial::standalone::{port_info, standalone_config};
use devserial::control::{builtin_macro, labels_of, parse_monitor_line, MonitorCommand};
use devserial::storage::{SqliteStorage, StorageError, StoredLine};

fn app() -> MonitorApp {
    MonitorApp::new("p", "115200 8N1", SqliteStorage::open_memory().unwrap())
}

/// The bytes of the input line, which the stored history has taken.
fn sent(app: &mut MonitorApp, now_ns: i64) -> Option<Vec<u8>> {
    app.send_input(now_ns).map(|s| {
        s.kept.unwrap();
        s.data
    })
}

fn texts(app: &MonitorApp) -> Vec<String> {
    app.lines.iter().map(|l| l.payload.clone()).collect()
}

#[test]
fn a_window_starts_at_the_end_of_the_buffer() {
    let mut s = SqliteStorage::open_memory().unwrap();
    s.insert_lines(&[(0, "old")]).unwrap();
    let mut app = MonitorApp::new("p", "i", s);
    app.poll().unwrap();
    assert!(app.lines.is_empty());
    app.storage.insert_lines(&[(3_723_004_000_000, "new"), (0, "er")]).unwrap();
    app.poll().unwrap();
    assert_eq!(texts(&app), vec!["new", "er"]);
    assert_eq!(app.lines[0].timestamp, "01:02:03.004");
    assert_eq!(app.lines[0].raw_bytes, Some(b"new".to_vec()));
    app.poll().unwrap();
    assert_eq!(app.lines.len(), 2);
}

#[test]
fn a_paused_window_shows_nothing_new() {
    let mut app = app();
    app.poll().unwrap();
    app.toggle_pause();
    app.storage.insert_lines(&[(0, "x")]).unwrap();
    app.poll().unwrap();
    assert!(app.lines.is_empty());
    app.toggle_pause();
    app.poll().unwrap();
    assert_eq!(texts(&app), vec!["x"]);
}

#[test]
fn the_filter_shows_what_passes() {
    let mut app = app();
    app.poll().unwrap();
    app.storage.insert_lines(&[(0, "Error A"), (0, "fine"), (0, "ÄRGER error")]).unwrap();
    app.poll().unwrap();
    app.set_filter("ERROR");
    assert!(app.filter_active);
    assert_eq!(app.filtered_indices, vec![0, 2]);
    assert_eq!(app.row_count(), 2);
    assert_eq!(app.row_line(1), Some(2));
    assert_eq!(app.row_line(2), None);
    assert_eq!(app.count_text(), ("Lines: 3".to_string(), Some("(showing 2)".to_string())));
    app.set_filter("ärger");
    assert_eq!(app.filtered_indices, vec![2]);
    app.storage.insert_lines(&[(0, "more ÄRGER")]).unwrap();
    app.poll().unwrap();
    assert_eq!(app.filtered_indices, vec![2, 3]);
    app.set_filter("");
    assert!(!app.filter_active && app.filtered_indices.is_empty());
    assert_eq!(app.row_count(), 4);
    app.clear_display();
    assert_eq!(app.row_line(0), None);
    assert_eq!(app.count_text(), ("Lines: 0".to_string(), None));
}

#[test]
fn the_display_is_bounded() {
    let mut app = app();
    app.set_filter("keep");
    for i in 0..100_010usize {
        let payload = if i % 50_000 == 5 || i == 100_009 { "keep".to_string() } else { "x".to_string() };
        app.lines.push_back(DisplayLine {
            timestamp: String::new(),
            payload,
            raw_bytes: None,
            is_sent: false,
        });
    }
    app.rebuild_filter();
    assert_eq!(app.filtered_indices, vec![5, 50_005, 100_005, 100_009]);
    app.poll().unwrap();
    assert_eq!(app.lines.len(), 100_000);
    assert_eq!(app.filtered_indices, vec![49_995, 99_995, 99_999]);
}

#[test]
fn sending_a_line() {
    let mut app = app();
    app.input = "  help \t".into();
    assert_eq!(sent(&mut app, 0), Some(b"help\r\n".to_vec()));
    assert_eq!(app.input, "");
    assert_eq!(app.history, vec!["help"]);
    assert!(app.lines[0].is_sent);
    assert_eq!(app.lines[0].timestamp, "00:00:00.000");
    app.input = "help".into();
    app.line_ending = LineEnding::Nothing;
    assert_eq!(sent(&mut app, 1), Some(b"help".to_vec()));
    assert_eq!(app.history, vec!["help"]);
    app.input = "0x41 4z 42".into();
    assert_eq!(sent(&mut app, 2), Some(vec![0x41, 0x42]));
    assert_eq!(app.history, vec!["help", "0x41 4z 42"]);
    assert_eq!(app.storage.load_send_history(10).unwrap(), vec!["help", "0x41 4z 42"]);
    app.input = " \u{3000}\n".into();
    assert_eq!(sent(&mut app, 3), None);
    assert_eq!(app.lines.len(), 3);
    let again = MonitorApp::new("p", "i", app.storage);
    assert!(again.history_load.is_ok());
    assert_eq!(again.history, vec!["help", "0x41 4z 42"]);
}

#[test]
fn walking_the_history() {
    let mut app = app();
    app.history_up();
    assert_eq!(app.input, "");
    for cmd in ["one", "two"] {
        app.input = cmd.into();
        app.send_input(0);
    }
    app.input = "draft".into();
    app.history_up();
    assert_eq!(app.input, "two");
    app.history_up();
    assert_eq!(app.input, "one");
    app.history_up();
    assert_eq!(app.input, "one");
    app.history_down();
    assert_eq!(app.input, "two");
    app.history_down();
    assert_eq!(app.input, "draft");
    assert_eq!(app.history_idx, None);
    app.history_down();
    assert_eq!(app.input, "draft");
}

#[test]
fn following_the_end() {
    let mut app = app();
    app.follow(false, false);
    assert!(app.auto_follow);
    app.follow(false, true);
    assert!(!app.auto_follow);
    app.follow(false, true);
    assert!(!app.auto_follow);
    app.follow(true, true);
    assert!(app.auto_follow);
}

#[test]
fn endings_and_their_names() {
    assert_eq!(LineEnding::Nothing.suffix(), b"");
    assert_eq!(LineEnding::Lf.suffix(), b"\n");
    assert_eq!(LineEnding::CrLf.suffix(), b"\r\n");
    assert_eq!(LineEnding::Cr.suffix(), b"\r");
    assert_eq!(LineEnding::Nothing.label(), "None");
    assert_eq!(LineEnding::Lf.label(), "LF");
    assert_eq!(LineEnding::CrLf.label(), "CRLF");
    assert_eq!(LineEnding::Cr.label(), "CR");
}

#[test]
fn colours_of_lines() {
    assert_eq!(tone("[ERROR] x"), Tone::Error);
    assert_eq!(tone("[PANIC] x"), Tone::Error);
    assert_eq!(tone("some error [INFO]"), Tone::Error);
    assert_eq!(tone("[WARN]"), Tone::Warning);
    assert_eq!(tone("warning: x"), Tone::Warning);
    assert_eq!(tone("[DEBUG] x"), Tone::Debug);
    assert_eq!(tone("[INFO] x"), Tone::Info);
    assert_eq!(tone("Error"), Tone::Plain);
}

#[test]
fn lines_as_they_are_shown() {
    let line = |sent: bool, raw: Option<Vec<u8>>| DisplayLine {
        timestamp: String::new(),
        payload: "ab".into(),
        raw_bytes: raw,
        is_sent: sent,
    };
    assert!(matches!(line(true, None).shown(true), Shown::Sent(t) if t == ">> ab"));
    assert!(matches!(line(false, Some(b"ab".to_vec())).shown(true), Shown::Hex(t) if t == "61 62"));
    assert!(matches!(line(false, None).shown(true), Shown::Hex(t) if t.is_empty()));
    assert!(matches!(line(false, None).shown(false), Shown::Text(t, Tone::Plain) if t == "ab"));
}

#[test]
fn bytes_in_hex() {
    let v: Vec<u8> = (0..17).collect();
    assert_eq!(hex_format(&v), "00 01 02 03 04 05 06 07 08 09 0A 0B 0C 0D 0E 0F  10");
    assert_eq!(hex_format(&[]), "");
    assert_eq!(hex_encode(&vec![0xde, 0x0a]), "de0a");
    assert_eq!(hex_decode_lossy("dE 0a g1 7"), vec![0xde, 0x0a]);
    assert_eq!(hex_decode("dE0a"), Ok(vec![0xde, 0x0a]));
    assert_eq!(hex_decode("+f"), Err("invalid digit found in string".into()));
    assert_eq!(hex_decode_lossy("+f+g-1"), vec![15]);
    assert_eq!(hex_decode("-f"), Err("invalid digit found in string".into()));
    assert_eq!(hex_decode("é0"), Err("odd number of hex digits".into()));
    let all: Vec<u8> = (0..=255).collect();
    assert_eq!(hex_decode_lossy(&hex_format(&all)), all);
    assert_eq!(hex_decode(&hex_encode(&all)), Ok(all));
}

#[test]
fn titles_and_descriptions() {
    assert_eq!(window_title("0.1.0", "COM3", "9600 8N1"), "devserial 0.1.0 — COM3 — 9600 8N1");
    assert_eq!(port_info(9600), "9600 8N1");
    let c = standalone_config(9600);
    assert_eq!((c.baudrate, c.data_bits, c.max_buffer_lines), (9600, 8, 0));
}

#[test]
fn a_window_on_a_trimmed_buffer_shows_the_latest_lines() {
    let mut s = SqliteStorage::open_memory().unwrap();
    s.insert_lines(&[(0, "a"), (0, "b"), (0, "c"), (0, "d")]).unwrap();
    s.trim_lines(2).unwrap();
    let mut app = MonitorApp::new("p", "i", s);
    app.poll().unwrap();
    assert_eq!(texts(&app), vec!["c", "d"]);
    assert_eq!(app.last_id, 4);
    app.storage.insert_lines(&[(0, "e")]).unwrap();
    app.poll().unwrap();
    assert_eq!(texts(&app), vec!["c", "d", "e"]);
}

#[test]
fn a_window_tells_what_it_could_not_read() {
    let path = "file:broken_window?mode=memory&cache=shared";
    let s = SqliteStorage::open(path).unwrap();
    let other = rusqlite::Connection::open(path).unwrap();
    other.execute_batch("DROP TABLE lines; DROP TABLE send_history;").unwrap();
    let mut app = MonitorApp::new("p", "i", s);
    assert!(app.history_load.is_err() && app.history.is_empty());
    assert!(app.poll().is_err());
    assert_eq!(app.last_id, i64::MAX);
    app.input = "x".into();
    let sent = app.send_input(0).unwrap();
    assert!(sent.kept.is_err());
    assert_eq!(sent.data, b"x\r\n");
    assert_eq!(app.history, vec!["x"]);
}

#[test]
fn taken_lines_join_the_display() {
    let mut app = app();
    app.set_filter("b");
    let line = |id: i64, text: &str| StoredLine { id, timestamp_ns: 0, payload: text.into() };
    app.take_lines(&vec![line(4, "a"), line(9, "b")]);
    app.take_lines(&Vec::new());
    assert_eq!(texts(&app), vec!["a", "b"]);
    assert_eq!((app.last_id, app.filtered_indices.clone()), (9, vec![1]));
}

#[test]
fn macro_buttons_are_obeyed() {
    for (line, name) in [(reset_line(), "reset"), (bootloader_line(), "enter_bootloader")] {
        let expected = labels_of(&builtin_macro(name).unwrap());
        assert!(!expected.is_empty());
        match parse_monitor_line(line) {
            MonitorCommand::Ops(ops) => assert_eq!(labels_of(&ops), expected),
            _ => unreachable!(),
        }
    }
    assert!(matches!(parse_monitor_line("__data:+f41"), MonitorCommand::Data(d) if d == [15, 0x41]));
}

#[test]
fn a_database_that_cannot_be_opened() {
    let e = StorageError::Io("denied".into());
    assert_eq!(open_failure_text(&e), "failed to open DB: io error: denied");
}
