use devserial::port_manager::PortInfo;
use devserial::reader::ConnectionState;
use devserial::server::{
    fetch_lines, parse_iso_to_ns, parse_time_range, plan_read, range_of_bounds, read_limit,
    render_list, render_read, resolve_after, resource_entry, resource_json, resource_port,
    status_json, time_of_reading, wait_step, ReadBufferParams, WaitStep,
};
use devserial::storage::{BufferStats, SqliteStorage};

fn setup() -> SqliteStorage {
    let mut s = SqliteStorage::open_memory().unwrap();
    s.insert_lines(&[(1_000_000_000, "line 1"), (2_000_000_000, "line 2"), (3_000_000_000, "line 3")])
        .unwrap();
    s
}

fn params() -> ReadBufferParams {
    ReadBufferParams {
        port_name: "test_port".into(),
        start_line: None,
        max_lines: None,
        include_timestamps: None,
        after_line: None,
        wait_ms: None,
        since_time: None,
    }
}

fn read(s: &mut SqliteStorage, p: &ReadBufferParams) -> String {
    let planned = plan_read(s, p).unwrap();
    assert!(planned.lookup.is_ok());
    let plan = planned.plan;
    let lines = fetch_lines(s, &plan).unwrap();
    let total = s.get_stats(0).unwrap().total_lines;
    render_read(&lines, plan.after, total, plan.timestamps)
}

#[test]
fn test_serial_read_basic() {
    let mut p = params();
    p.max_lines = Some(10);
    p.include_timestamps = Some(false);
    let result = read(&mut setup(), &p);
    assert!(result.contains("line 1"));
    assert!(result.contains("line 2"));
    assert!(result.contains("line 3"));
    assert_eq!(result, "[lines 1-3 of 3 total]\nline 1\nline 2\nline 3\n");
}

#[test]
fn test_serial_read_with_timestamps() {
    let mut p = params();
    p.max_lines = Some(10);
    p.include_timestamps = Some(true);
    let result = read(&mut setup(), &p);
    assert!(result.contains(':')); // timestamp HH:MM:SS
    assert!(result.contains("line 1"));
    assert!(result.contains("00:00:02.000 line 2\n"));
}

#[test]
fn test_serial_read_empty_result() {
    let mut p = params();
    p.start_line = Some(9999);
    p.max_lines = Some(10);
    let result = read(&mut setup(), &p);
    assert!(result.contains("no new lines"));
    assert_eq!(result, "[no new lines after 9999, 3 total]");
}

#[test]
fn test_serial_status() {
    let stats = setup().get_stats(4096).unwrap();
    let result = status_json("test_port", &ConnectionState::Connected, &stats);
    assert!(result.contains("total_lines"));
    assert!(result.contains("Connected"));
    let v: serde_json::Value = serde_json::from_str(&result).unwrap();
    assert_eq!(v["port"], "test_port");
    assert_eq!(v["state"], "Connected");
    assert_eq!(v["total_lines"], 3);
    assert_eq!(v["total_bytes"], 18);
    assert_eq!(v["last_activity"], "1970-01-01T00:00:03.000Z");
    assert_eq!(v["db_size_bytes"], 4096);
    assert_eq!(v.as_object().unwrap().len(), 6);
}

#[test]
fn test_serial_list() {
    let managed = vec![PortInfo {
        name: "test_port".into(),
        state: ConnectionState::Connected,
        total_lines: 3,
    }];
    let result = render_list(&Vec::new(), &managed);
    assert!(result.contains("Managed connections:"));
    assert!(result.contains("test_port"));
    assert_eq!(
        result,
        "System ports:\n  (none detected)\n\nManaged connections:\n  test_port — Connected (3 lines)\n"
    );
    assert_eq!(
        render_list(&vec!["/dev/ttyS0".into()], &Vec::new()),
        "System ports:\n  /dev/ttyS0\n\nManaged connections:\n  (none)\n"
    );
}

#[test]
fn tail_reads_count_from_the_end() {
    let mut s = setup();
    let mut p = params();
    p.start_line = Some(-2);
    assert_eq!(read(&mut s, &p), "[lines 2-3 of 3 total]\nline 2\nline 3\n");
    p.start_line = Some(-50);
    assert!(read(&mut s, &p).starts_with("[lines 1-3 of 3 total]"));
    s.trim_lines(1).unwrap();
    s.insert_lines(&[(4, "line 4")]).unwrap();
    p.start_line = Some(-1);
    assert_eq!(read(&mut s, &p), "[lines 4-4 of 2 total]\nline 4\n");
    s.clear(None).unwrap();
    assert_eq!(read(&mut s, &p), "[no new lines after 1, 0 total]");
}

#[test]
fn polling_with_after_line() {
    let mut s = setup();
    let mut p = params();
    p.max_lines = Some(2);
    p.after_line = Some(0);
    assert_eq!(read(&mut s, &p), "[lines 1-2 of 3 total]\nline 1\nline 2\n");
    p.after_line = Some(2);
    p.start_line = Some(1);
    assert_eq!(read(&mut s, &p), "[lines 3-3 of 3 total]\nline 3\n");
    p.after_line = Some(3);
    assert_eq!(read(&mut s, &p), "[no new lines after 4, 3 total]");
}

#[test]
fn only_lines_after_a_time() {
    let mut s = setup();
    let mut p = params();
    p.since_time = Some("1970-01-01T00:00:02Z".into());
    assert_eq!(read(&mut s, &p), "[lines 3-3 of 3 total]\nline 3\n");
    p.since_time = Some("1970-01-01T00:00:01.999999999Z".into());
    assert!(read(&mut s, &p).starts_with("[lines 2-3 of 3 total]"));
    p.since_time = Some("2262-04-11T23:47:16.854775807Z".into());
    assert_eq!(read(&mut s, &p), "[no new lines after 1, 3 total]");
    p.since_time = Some("yesterday".into());
    assert!(plan_read(&mut s, &p).unwrap_err().starts_with("invalid time format: "));
}

#[test]
fn limits_of_reads() {
    assert_eq!(read_limit(None), 100);
    assert_eq!(read_limit(Some(7)), 7);
    assert_eq!(read_limit(Some(1_000_000)), 10_000);
    let mut p = params();
    p.wait_ms = Some(20);
    let plan = plan_read(&mut setup(), &p).unwrap().plan;
    assert_eq!((plan.max, plan.wait_ms, plan.after), (100, 20, 0));
}

#[test]
fn starting_points() {
    assert_eq!(resolve_after(true, Some(5), Some(9), 3), 0);
    assert_eq!(resolve_after(false, Some(5), Some(9), 3), 5);
    assert_eq!(resolve_after(false, Some(i64::MAX), None, 3), i64::MAX);
    assert_eq!(resolve_after(false, None, Some(9), 3), 8);
    assert_eq!(resolve_after(false, None, Some(0), 3), 0);
    assert_eq!(resolve_after(false, None, Some(-2), 3), 1);
    assert_eq!(resolve_after(false, None, Some(i64::MIN), i64::MAX), 0);
    assert_eq!(resolve_after(false, None, Some(-1), i64::MIN), 0);
    assert_eq!(resolve_after(false, None, None, 3), 0);
}

#[test]
fn waiting_for_data() {
    assert_eq!(wait_step(true, 100, false), WaitStep::Return);
    assert_eq!(wait_step(false, 0, false), WaitStep::Return);
    assert_eq!(wait_step(false, 100, false), WaitStep::LookAgain);
    assert_eq!(wait_step(false, 100, true), WaitStep::Return);
}

#[test]
fn times_in_rfc_3339() {
    assert_eq!(parse_iso_to_ns("1970-01-01T00:00:01Z"), Ok(1_000_000_000));
    assert_eq!(parse_iso_to_ns("1970-01-01T01:00:00+01:00"), Ok(0));
    assert_eq!(parse_iso_to_ns("9999-01-01T00:00:00Z"), Ok(i64::MAX));
    assert_eq!(parse_iso_to_ns("1600-01-01T00:00:00Z"), Ok(i64::MIN));
    assert_eq!(parse_iso_to_ns("1969-12-31T23:59:59.5Z"), Ok(-500_000_000));
    assert!(parse_iso_to_ns("12:00").is_err());
    assert_eq!(time_of_reading(Ok((5, 7))), Ok(5_000_000_007));
    assert_eq!(time_of_reading(Ok((9_223_372_036, 854_775_807))), Ok(i64::MAX));
    assert_eq!(time_of_reading(Ok((9_223_372_036, 854_775_808))), Ok(i64::MAX));
    assert_eq!(time_of_reading(Ok((i64::MIN, 0))), Ok(i64::MIN));
    assert_eq!(time_of_reading(Err("x".into())), Err("invalid time format: x".into()));
}

#[test]
fn time_ranges() {
    assert!(parse_time_range(None, None).unwrap().is_none());
    let r = parse_time_range(Some("1970-01-01T00:00:01Z"), None).unwrap().unwrap();
    assert_eq!((r.start_ns, r.end_ns), (1_000_000_000, i64::MAX));
    let r = parse_time_range(None, Some("1970-01-01T00:00:01Z")).unwrap().unwrap();
    assert_eq!((r.start_ns, r.end_ns), (0, 1_000_000_000));
    let r = range_of_bounds(Some(Ok(4)), Some(Ok(9))).unwrap().unwrap();
    assert_eq!((r.start_ns, r.end_ns), (4, 9));
    assert_eq!(
        range_of_bounds(Some(Err("first".into())), Some(Err("second".into()))).unwrap_err(),
        "first"
    );
    assert_eq!(range_of_bounds(Some(Ok(1)), Some(Err("second".into()))).unwrap_err(), "second");
}

#[test]
fn resources() {
    let e = resource_entry("/dev/ttyUSB0");
    assert_eq!(e.uri, "serial:///dev/ttyUSB0/status");
    assert_eq!(e.name, "/dev/ttyUSB0 status");
    assert_eq!(e.description, "Connection state for /dev/ttyUSB0");
    assert_eq!(resource_port(&e.uri), Ok("/dev/ttyUSB0".into()));
    assert_eq!(resource_port("serial://p"), Err("invalid resource URI: serial://p".into()));
    assert_eq!(resource_port("http://p/status"), Err("invalid resource URI: http://p/status".into()));
    let stats =
        BufferStats { total_lines: 1, total_bytes: 2, last_timestamp_ns: None, db_size_bytes: 3 };
    let v: serde_json::Value =
        serde_json::from_str(&resource_json("p", &ConnectionState::Reconnecting, &stats)).unwrap();
    assert_eq!(v["state"], "Reconnecting");
    assert_eq!(v.as_object().unwrap().len(), 5);
    let v: serde_json::Value =
        serde_json::from_str(&status_json("p", &ConnectionState::Reconnecting, &stats)).unwrap();
    assert_eq!(v["last_activity"], "never");
}

#[test]
fn a_read_after_the_largest_id_finds_nothing() {
    let mut s = setup();
    let mut p = params();
    p.after_line = Some(i64::MAX);
    assert_eq!(read(&mut s, &p), "[no new lines after 9223372036854775808, 3 total]");
    p.after_line = Some(i64::MIN);
    assert!(read(&mut s, &p).starts_with("[lines 1-3 of 3 total]"));
    p.max_lines = Some(0);
    assert_eq!(read(&mut s, &p), format!("[no new lines after {}, 3 total]", i64::MIN + 1));
}

#[test]
fn lines_between_two_reads_are_not_missed() {
    let mut s = setup();
    let mut p = params();
    let mut ids: Vec<i64> = Vec::new();
    for i in 0..4 {
        let plan = plan_read(&mut s, &p).unwrap().plan;
        let lines = fetch_lines(&mut s, &plan).unwrap();
        ids.extend(lines.iter().map(|l| l.id));
        p.after_line = ids.last().copied();
        s.insert_lines(&[(i, "more"), (i, "and more")]).unwrap();
    }
    assert_eq!(ids, (1..=9).collect::<Vec<i64>>());
}
