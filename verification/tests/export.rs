use devserial::export::{
    archive_file, archive_wanted, check_export_parent, check_export_path, cleared_text,
    export_format, export_text, exported_text, fetch_export, format_name, ExportFormat,
};
use devserial::storage::{SqliteStorage, StoredLine};

fn setup() -> SqliteStorage {
    let mut s = SqliteStorage::open_memory().unwrap();
    s.insert_lines(&[(1_000_000_000, "line 1"), (2_000_000_000, "line 2"), (3_000_000_000, "line 3")])
        .unwrap();
    s
}

#[test]
fn test_serial_export_txt() {
    let lines = fetch_export(&mut setup(), None, None).unwrap();
    let content = export_text(&lines, export_format("txt"));
    let result = exported_text(lines.len() as u64, "/tmp/export.txt", "txt");
    assert!(result.contains("3 lines"));
    assert_eq!(result, "Exported 3 lines to /tmp/export.txt (format: txt)");
    assert!(content.contains("line 1"));
    assert!(content.contains("line 3"));
    assert_eq!(content, "line 1\nline 2\nline 3\n");
}

#[test]
fn test_serial_export_csv() {
    let lines = fetch_export(&mut setup(), None, None).unwrap();
    let content = export_text(&lines, export_format("csv"));
    assert!(exported_text(lines.len() as u64, "e.csv", "csv").contains("3 lines"));
    assert!(content.starts_with("line_number,timestamp,payload"));
    assert!(content.contains("\"line 1\""));
    assert!(content.contains("\r\n2,1970-01-01T00:00:02.000Z,\"line 2\"\r\n"));
}

#[test]
fn test_serial_export_jsonl() {
    let lines = fetch_export(&mut setup(), None, None).unwrap();
    let content = export_text(&lines, export_format("jsonl"));
    assert!(exported_text(lines.len() as u64, "e.jsonl", "jsonl").contains("3 lines"));
    assert_eq!(content.lines().count(), 3);
    for line in content.lines() {
        let _: serde_json::Value = serde_json::from_str(line).unwrap();
    }
}

#[test]
fn test_serial_export_path_traversal_rejected() {
    let result = check_export_path("../../etc/passwd");
    assert!(result.is_err());
    assert_eq!(result.unwrap_err(), "invalid output path: path traversal not allowed");
    assert!(check_export_path("/tmp/a.txt").is_ok());
    assert!(check_export_path("a..b").is_err());
}

#[test]
fn test_serial_export_nonexistent_parent() {
    assert!(check_export_path("/nonexistent_dir_xyz/file.txt").is_ok());
    let result = check_export_parent("/nonexistent_dir_xyz", false);
    assert!(result.is_err());
    assert_eq!(result.unwrap_err(), "parent directory does not exist: /nonexistent_dir_xyz");
    assert!(check_export_parent("/tmp", true).is_ok());
    assert!(check_export_parent("", false).is_ok());
}

#[test]
fn test_serial_clear_no_archive() {
    let mut s = setup();
    let total = s.get_stats(0).unwrap().total_lines;
    s.clear(None).unwrap();
    let result = cleared_text(total, None);
    assert!(result.contains("3 lines removed"));
    assert_eq!(s.get_stats(0).unwrap().total_lines, 0);
}

#[test]
fn quotation_marks_are_doubled() {
    let v = vec![StoredLine { id: 1, timestamp_ns: 0, payload: "say \"hi\", ok".into() }];
    assert_eq!(
        export_text(&v, ExportFormat::Csv),
        "line_number,timestamp,payload\r\n1,1970-01-01T00:00:00.000Z,\"say \"\"hi\"\", ok\"\r\n"
    );
}

#[test]
fn json_records_take_one_line() {
    let v = vec![StoredLine { id: -4, timestamp_ns: 5_000_000, payload: "a\nb\u{1}\"é".into() }];
    let text = export_text(&v, ExportFormat::Jsonl);
    assert_eq!(text.matches('\n').count(), 1);
    let j: serde_json::Value = serde_json::from_str(text.trim_end()).unwrap();
    assert_eq!(j["line"], -4);
    assert_eq!(j["payload"], "a\nb\u{1}\"é");
    assert_eq!(j["timestamp"], "1970-01-01T00:00:00.005Z");
    assert_eq!(j.as_object().unwrap().len(), 3);
}

#[test]
fn ranges_of_an_export() {
    let ids = |a, b| {
        fetch_export(&mut setup(), a, b).unwrap().iter().map(|l| l.id).collect::<Vec<i64>>()
    };
    assert_eq!(ids(Some(2), None), vec![2, 3]);
    assert_eq!(ids(None, Some(2)), vec![1, 2]);
    assert_eq!(ids(Some(3), Some(1)), Vec::<i64>::new());
}

#[test]
fn formats_by_name() {
    assert_eq!(export_format("csv"), ExportFormat::Csv);
    assert_eq!(export_format("jsonl"), ExportFormat::Jsonl);
    assert_eq!(export_format("txt"), ExportFormat::Txt);
    assert_eq!(export_format("xml"), ExportFormat::Txt);
}

#[test]
fn archives_are_named_by_port_and_time() {
    assert_eq!(archive_file("/dev/ttyUSB0", 0), "_dev_ttyUSB0_19700101_000000.db");
    assert_eq!(archive_file("/dev/a_b\\c%", 0), "_dev_a_b_c%_19700101_000000.db");
    assert_eq!(archive_file("COM3", 86_399_999_999_999), "COM3_19700101_235959.db");
    assert_eq!(
        cleared_text(9, Some("./a/COM3_x.db")),
        "Cleared buffer (9 lines archived to ./a/COM3_x.db)"
    );
    assert_eq!(cleared_text(9, None), "Cleared buffer (9 lines removed)");
}

#[test]
fn what_is_not_said() {
    assert_eq!(format_name(None), "txt");
    assert_eq!(format_name(Some("csv")), "csv");
    assert!(!archive_wanted(None) && !archive_wanted(Some(false)) && archive_wanted(Some(true)));
}

#[test]
fn a_whole_csv_file() {
    let line = |id: i64, text: &str| StoredLine { id, timestamp_ns: 0, payload: text.into() };
    let v = vec![line(-1, "a,\"b\"\r\nc"), line(2, "")];
    assert_eq!(
        export_text(&v, ExportFormat::Csv),
        "line_number,timestamp,payload\r\n\
         -1,1970-01-01T00:00:00.000Z,\"a,\"\"b\"\"\r\nc\"\r\n\
         2,1970-01-01T00:00:00.000Z,\"\"\r\n"
    );
    assert_eq!(export_text(&Vec::new(), ExportFormat::Csv), "line_number,timestamp,payload\r\n");
}
