use devserial::search::{
    exact_lines, pattern_lines, pick, query_kind, render_search, run_search, search_limit, QueryKind,
};
use devserial::server::parse_time_range;
use devserial::storage::{SqliteStorage, StorageError, StoredLine};
use devserial::testutil::data_generator::TestDataGenerator;

fn setup_search() -> SqliteStorage {
    let mut s = SqliteStorage::open_memory().unwrap();
    for i in 0..100 {
        let text = if i % 10 == 0 {
            format!("[ERROR] failure at step {i}")
        } else {
            format!("[INFO] normal operation {i}")
        };
        s.insert_lines(&[(i * 1000, text.as_str())]).unwrap();
    }
    s
}

fn search(query: &str, kind: Option<&str>, max: Option<u32>) -> Result<String, StorageError> {
    let mut s = setup_search();
    let r = run_search(&mut s, query, query_kind(kind), None, search_limit(max))?;
    Ok(render_search(&r))
}

#[test]
fn test_serial_search_substring() {
    let result = search("[ERROR]", Some("substring"), None).unwrap();
    let lines: Vec<&str> = result.lines().collect();
    assert_eq!(lines.len(), 10);
    assert!(lines.iter().all(|l| l.contains("[ERROR]")));
}

#[test]
fn test_serial_search_regex() {
    let result = search(r"\[ERROR\].*step \d0", Some("regex"), None).unwrap();
    // Matches step 10, 20, ..., 90
    assert!(!result.is_empty());
    assert!(result.contains("[ERROR]"));
    assert_eq!(result.lines().count(), 9);
}

#[test]
fn test_serial_search_invalid_regex() {
    let result = search("[unclosed", Some("regex"), None);
    assert!(result.is_err());
    match result {
        Err(StorageError::InvalidRegex(e)) => {
            let m = StorageError::InvalidRegex(e).message();
            assert!(m.starts_with("invalid regex: ") && m.contains("unclosed"));
        }
        _ => unreachable!(),
    }
}

#[test]
fn test_serial_search_no_matches() {
    let result = search("NONEXISTENT_PATTERN", None, None).unwrap();
    assert!(result.is_empty());
}

#[test]
fn test_serial_search_max_results() {
    let result = search("[INFO]", None, Some(5)).unwrap();
    assert_eq!(result.lines().count(), 5);
}

#[test]
fn exact_lines_only() {
    let mut s = SqliteStorage::open_memory().unwrap();
    for line in TestDataGenerator::search_corpus() {
        s.insert_lines(&[(1, line.as_str())]).unwrap();
    }
    s.insert_lines(&[(1, "Exact Match"), (1, "an exact match")]).unwrap();
    let r = run_search(&mut s, "exact match", QueryKind::Exact, None, 100).unwrap();
    assert_eq!(r.len(), 1);
    assert_eq!(r[0].id, 1);
    let r = run_search(&mut s, "exact match", QueryKind::Substring, None, 100).unwrap();
    assert_eq!(r.len(), 2);
    let r = run_search(&mut s, r"^\[2026-\d\d", QueryKind::Regex, None, 100).unwrap();
    assert_eq!(r.len(), 20);
}

#[test]
fn a_search_looks_at_every_line() {
    let mut s = SqliteStorage::open_memory().unwrap();
    for _ in 0..1200 {
        s.insert_lines(&[(1, "xx")]).unwrap();
    }
    s.insert_lines(&[(1, "x")]).unwrap();
    for (query, kind) in [("x", QueryKind::Exact), ("^x$", QueryKind::Regex)] {
        let r = run_search(&mut s, query, kind, None, 1).unwrap();
        assert_eq!((r.len(), r[0].id), (1, 1201));
    }
    assert_eq!(run_search(&mut s, "x", QueryKind::Substring, None, 5000).unwrap().len(), 1201);
}

#[test]
fn a_far_end_bounds_nothing() {
    let mut s = setup_search();
    let range = parse_time_range(None, Some("9999-12-31T23:59:59Z")).unwrap();
    let r = run_search(&mut s, "[ERROR]", QueryKind::Substring, range, 100).unwrap();
    assert_eq!(r.len(), 10);
    let range = parse_time_range(Some("9999-12-31T23:59:59Z"), None).unwrap();
    assert!(run_search(&mut s, "[ERROR]", QueryKind::Substring, range, 100).unwrap().is_empty());
}

#[test]
fn time_bounds_narrow_a_search() {
    let mut s = setup_search();
    let range =
        parse_time_range(Some("1970-01-01T00:00:00.000010Z"), Some("1970-01-01T00:00:00.000020Z"))
            .unwrap();
    let r = run_search(&mut s, "", QueryKind::Substring, range, 100).unwrap();
    assert_eq!(r.len(), 11);
    let r = run_search(&mut s, "ERROR", QueryKind::Regex, range, 100).unwrap();
    assert_eq!(r.len(), 2);
}

#[test]
fn answers_show_id_and_time() {
    let v = vec![
        StoredLine { id: 7, timestamp_ns: 1_500_000_000, payload: "a".into() },
        StoredLine { id: 8, timestamp_ns: -1, payload: "b".into() },
    ];
    assert_eq!(
        render_search(&v),
        "7:[1970-01-01T00:00:01.500Z] a\n8:[1969-12-31T23:59:59.999Z] b"
    );
    assert_eq!(render_search(&Vec::new()), "");
    for (ns, date) in [
        (951_782_400_000_000_000, "2000-02-29T00:00:00.000Z"),
        (-2_203_891_200_000_000_000, "1900-03-01T00:00:00.000Z"),
        (1_772_236_800_000_000_000, "2026-02-28T00:00:00.000Z"),
        (i64::MIN, "1677-09-21T00:12:43.145Z"),
        (i64::MAX, "2262-04-11T23:47:16.854Z"),
    ] {
        let v = vec![StoredLine { id: 1, timestamp_ns: ns, payload: "x".into() }];
        assert_eq!(render_search(&v), format!("1:[{date}] x"));
    }
}

#[test]
fn kinds_and_limits() {
    assert_eq!(query_kind(None), QueryKind::Substring);
    assert_eq!(query_kind(Some("exact")), QueryKind::Exact);
    assert_eq!(query_kind(Some("regex")), QueryKind::Regex);
    assert_eq!(query_kind(Some("fuzzy")), QueryKind::Substring);
    assert_eq!(search_limit(None), 100);
    assert_eq!(search_limit(Some(0)), 0);
    assert_eq!(search_limit(Some(5000)), 1000);
}

#[test]
fn picking_by_verdict() {
    let v: Vec<StoredLine> =
        (1..5).map(|i| StoredLine { id: i, timestamp_ns: 0, payload: "p".into() }).collect();
    let r = pick(v, &vec![true, false, true, true], 2);
    assert_eq!(r.iter().map(|l| l.id).collect::<Vec<i64>>(), vec![1, 3]);
}

fn candidates() -> Vec<StoredLine> {
    ["x", "xx", "y", "x", "X", "x"]
        .iter()
        .zip(3..)
        .map(|(text, id)| StoredLine { id, timestamp_ns: 0, payload: text.to_string() })
        .collect()
}

fn ids(v: Vec<StoredLine>) -> Vec<i64> {
    v.iter().map(|l| l.id).collect()
}

#[test]
fn candidates_that_are_the_query() {
    assert_eq!(ids(exact_lines(candidates(), "x", 10)), vec![3, 6, 8]);
    assert_eq!(ids(exact_lines(candidates(), "x", 2)), vec![3, 6]);
    assert!(exact_lines(candidates(), "", 10).is_empty());
    assert!(exact_lines(candidates(), "x", 0).is_empty());
}

#[test]
fn candidates_that_match_a_pattern() {
    let re = regex::Regex::new("(?i)^x$").unwrap();
    assert_eq!(ids(pattern_lines(candidates(), &re, 10)), vec![3, 6, 7, 8]);
    assert_eq!(ids(pattern_lines(candidates(), &re, 1)), vec![3]);
    assert!(pattern_lines(Vec::new(), &re, 1).is_empty());
}

#[test]
fn results_come_in_the_order_of_their_ids() {
    let mut s = SqliteStorage::open_memory().unwrap();
    s.insert_lines(&[(9, "a1"), (5, "a2"), (7, "b"), (1, "a3")]).unwrap();
    let range = parse_time_range(Some("1970-01-01T00:00:00Z"), None).unwrap();
    for (query, kind) in [("a", QueryKind::Substring), ("^a", QueryKind::Regex)] {
        assert_eq!(ids(run_search(&mut s, query, kind, range, 10).unwrap()), vec![1, 2, 4]);
    }
}

#[test]
fn a_search_that_cannot_read_fails() {
    let path = "file:broken_search?mode=memory&cache=shared";
    let mut s = SqliteStorage::open(path).unwrap();
    let other = rusqlite::Connection::open(path).unwrap();
    other.execute_batch("DROP TABLE lines;").unwrap();
    for kind in [QueryKind::Substring, QueryKind::Exact, QueryKind::Regex] {
        let r = run_search(&mut s, "x", kind, None, 10);
        assert!(matches!(r, Err(StorageError::Sqlite(_))));
    }
}
