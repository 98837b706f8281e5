use devserial::storage::{SqliteStorage, StorageError, StoredLine};
use devserial::tui::{line_tone, visible_rows, AppState, KeyAction, LineTone, TuiKey};

fn with_lines(n: usize) -> AppState {
    let mut s = SqliteStorage::open_memory().unwrap();
    let batch: Vec<(i64, &str)> = (0..n).map(|_| (0, "x")).collect();
    s.insert_lines(&batch).unwrap();
    let mut app = AppState::new("p", 9600);
    for _ in 0..=n / 500 {
        app.poll(&mut s).unwrap();
    }
    app
}

#[test]
fn new_lines_are_taken_once() {
    let mut s = SqliteStorage::open_memory().unwrap();
    s.insert_lines(&[(1_000_000, "a")]).unwrap();
    let mut app = AppState::new("p", 9600);
    app.poll(&mut s).unwrap();
    app.poll(&mut s).unwrap();
    assert_eq!(app.lines, vec![("00:00:00.001".to_string(), "a".to_string())]);
    assert_eq!(app.last_id, 1);
}

#[test]
fn scrolling() {
    let mut app = with_lines(100);
    app.follow(30);
    assert_eq!(app.scroll_offset, 70);
    app.on_key(TuiKey::Up, 30);
    assert_eq!((app.scroll_offset, app.auto_follow), (69, false));
    app.follow(30);
    assert_eq!(app.scroll_offset, 69);
    app.on_key(TuiKey::PageUp, 30);
    assert_eq!(app.scroll_offset, 49);
    app.on_key(TuiKey::Down, 30);
    assert_eq!((app.scroll_offset, app.auto_follow), (50, false));
    app.on_key(TuiKey::PageDown, 30);
    assert_eq!((app.scroll_offset, app.auto_follow), (70, true));
    app.on_key(TuiKey::PageUp, 30);
    app.on_key(TuiKey::End, 30);
    assert!(app.auto_follow);
    for _ in 0..9 {
        app.on_key(TuiKey::PageUp, 30);
    }
    assert_eq!(app.scroll_offset, 0);
    app.on_key(TuiKey::Up, 30);
    assert_eq!(app.scroll_offset, 0);
    app.on_key(TuiKey::Down, 200);
    assert_eq!((app.scroll_offset, app.auto_follow), (0, true));
    assert_eq!(app.visible_range(30), (0, 30));
    assert_eq!(app.visible_range(300), (0, 100));
}

#[test]
fn keys_of_the_input_line() {
    let mut app = AppState::new("p", 9600);
    assert!(matches!(app.on_key(TuiKey::Enter, 1), KeyAction::Continue));
    assert!(matches!(app.on_key(TuiKey::Char('h'), 1), KeyAction::Continue));
    assert!(matches!(app.on_key(TuiKey::Char('q'), 1), KeyAction::Continue));
    assert_eq!(app.prompt_text(), "> hq");
    app.on_key(TuiKey::Backspace, 1);
    assert_eq!(app.input, "h");
    assert!(matches!(app.on_key(TuiKey::Enter, 1), KeyAction::Send(b) if b == b"h\r\n".to_vec()));
    assert_eq!(app.input, "");
    app.on_key(TuiKey::Backspace, 1);
    app.on_key(TuiKey::Other, 1);
    assert!(matches!(app.on_key(TuiKey::Char('q'), 1), KeyAction::Quit));
    app.on_key(TuiKey::Char('x'), 1);
    assert!(matches!(app.on_key(TuiKey::CtrlC, 1), KeyAction::Quit));
}

#[test]
fn texts_and_colours() {
    let mut app = with_lines(3);
    assert_eq!(app.status_text(), " p | 9600 8N1 | Lines: 3 | AUTO-FOLLOW");
    app.on_key(TuiKey::Up, 1);
    assert_eq!(app.status_text(), " p | 9600 8N1 | Lines: 3 | PAUSED");
    assert_eq!(line_tone("[PANIC]"), LineTone::Red);
    assert_eq!(line_tone("[ERROR]"), LineTone::Red);
    assert_eq!(line_tone("[WARN]"), LineTone::Yellow);
    assert_eq!(line_tone("[DEBUG]"), LineTone::DarkGray);
    assert_eq!(line_tone("error"), LineTone::White);
    assert_eq!(visible_rows(Some(24)), 18);
    assert_eq!(visible_rows(Some(3)), 0);
    assert_eq!(visible_rows(None), 20);
}

#[test]
fn nothing_comes_after_the_largest_id() {
    let mut s = SqliteStorage::open_memory().unwrap();
    s.insert_lines(&[(1_000_000, "a")]).unwrap();
    let mut app = AppState::new("p", 9600);
    app.last_id = i64::MAX;
    app.poll(&mut s).unwrap();
    assert!(app.lines.is_empty());
    assert_eq!(app.last_id, i64::MAX);
}

#[test]
fn lines_are_shown_after_the_others() {
    let mut app = with_lines(1);
    let lines = vec![
        StoredLine { id: 7, timestamp_ns: 2_000_000, payload: "b".into() },
        StoredLine { id: 9, timestamp_ns: 3_000_000, payload: "c".into() },
    ];
    app.take_lines(&lines);
    let shown: Vec<&str> = app.lines.iter().map(|l| l.1.as_str()).collect();
    assert_eq!(shown, vec!["x", "b", "c"]);
    assert_eq!(app.lines[2].0, "00:00:00.003");
    assert_eq!(app.last_id, 9);
    app.take_lines(&Vec::new());
    assert_eq!(app.last_id, 9);
}

#[test]
fn a_buffer_that_cannot_be_read_gives_nothing() {
    let path = "file:tui_broken?mode=memory&cache=shared";
    let mut s = SqliteStorage::open(path).unwrap();
    s.insert_lines(&[(1, "a")]).unwrap();
    rusqlite::Connection::open(path).unwrap().execute_batch("DROP TABLE lines").unwrap();
    let mut app = AppState::new("p", 9600);
    assert!(matches!(app.poll(&mut s), Err(StorageError::Sqlite(_))));
    assert!(app.lines.is_empty());
    assert_eq!(app.last_id, 0);
}
