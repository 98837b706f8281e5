use devserial::storage::{BufferStats, SqliteStorage, StorageError, TimeRange};

fn make_storage() -> SqliteStorage {
    SqliteStorage::open_memory().unwrap()
}

#[test]
fn test_insert_and_read_single() {
    let mut s = make_storage();
    s.insert_lines(&[(1_000_000, "hello")]).unwrap();

    let lines = s.read_lines(1, 10).unwrap();
    assert_eq!(lines.len(), 1);
    assert_eq!(lines[0].id, 1);
    assert_eq!(lines[0].timestamp_ns, 1_000_000);
    assert_eq!(lines[0].payload, "hello");
}

#[test]
fn test_insert_batch_ordering() {
    let mut s = make_storage();
    let batch: Vec<(i64, &str)> = (0..100).map(|i| (i * 1000, "line")).collect();
    s.insert_lines(&batch).unwrap();

    let lines = s.read_lines(1, 100).unwrap();
    assert_eq!(lines.len(), 100);
    for (i, line) in lines.iter().enumerate() {
        assert_eq!(line.id, i64::try_from(i + 1).unwrap());
    }
}

#[test]
fn test_insert_10k_no_gaps() {
    let mut s = make_storage();
    let batch: Vec<(i64, &str)> = (0..10_000).map(|i| (i * 1000, "data")).collect();
    s.insert_lines(&batch).unwrap();

    let lines = s.read_lines(1, 10_000).unwrap();
    assert_eq!(lines.len(), 10_000);
    for (i, line) in lines.iter().enumerate() {
        assert_eq!(line.id, i64::try_from(i + 1).unwrap());
    }
}

#[test]
fn test_read_range() {
    let mut s = make_storage();
    let batch: Vec<(i64, &str)> = (0..1000).map(|i| (i * 1000, "x")).collect();
    s.insert_lines(&batch).unwrap();

    let lines = s.read_lines(500, 50).unwrap();
    assert_eq!(lines.len(), 50);
    assert_eq!(lines[0].id, 500);
    assert_eq!(lines[49].id, 549);
}

#[test]
fn test_read_past_end() {
    let mut s = make_storage();
    s.insert_lines(&[(1000, "only")]).unwrap();

    let lines = s.read_lines(100, 50).unwrap();
    assert!(lines.is_empty());
}

#[test]
fn test_get_stats() {
    let mut s = make_storage();
    s.insert_lines(&[(1000, "hello"), (2000, "world!")]).unwrap();

    let stats = s.get_stats(0).unwrap();
    assert_eq!(stats.total_lines, 2);
    assert_eq!(stats.total_bytes, 11); // "hello" + "world!"
    assert_eq!(stats.last_timestamp_ns, Some(2000));
}

#[test]
fn test_search_substring() {
    let mut s = make_storage();
    s.insert_lines(&[
        (1000, "[INFO] all good"),
        (2000, "[ERROR] something broke"),
        (3000, "[INFO] recovered"),
        (4000, "[ERROR] again"),
    ])
    .unwrap();

    let results = s.search_substring("ERROR", None, 100).unwrap();
    assert_eq!(results.len(), 2);
    assert_eq!(results[0].id, 2);
    assert_eq!(results[1].id, 4);
}

#[test]
fn test_search_substring_with_time_range() {
    let mut s = make_storage();
    s.insert_lines(&[
        (1000, "[ERROR] early"),
        (5000, "[ERROR] middle"),
        (9000, "[ERROR] late"),
    ])
    .unwrap();

    let results = s
        .search_substring("ERROR", Some(TimeRange { start_ns: 4000, end_ns: 6000 }), 100)
        .unwrap();
    assert_eq!(results.len(), 1);
    assert_eq!(results[0].payload, "[ERROR] middle");
}

#[test]
fn test_search_time_range() {
    let mut s = make_storage();
    s.insert_lines(&[(1000, "a"), (2000, "b"), (3000, "c"), (4000, "d")]).unwrap();

    let results = s.search_time_range(2000, 3000, 100).unwrap();
    assert_eq!(results.len(), 2);
    assert_eq!(results[0].payload, "b");
    assert_eq!(results[1].payload, "c");
}

#[test]
fn test_clear_no_archive() {
    let mut s = make_storage();
    s.insert_lines(&[(1000, "data")]).unwrap();
    s.clear(None).unwrap();

    let stats = s.get_stats(0).unwrap();
    assert_eq!(stats.total_lines, 0);
}

#[test]
fn test_export_range() {
    let mut s = make_storage();
    let batch: Vec<(i64, &str)> = (0..100).map(|i| (i * 1000, "line")).collect();
    s.insert_lines(&batch).unwrap();

    let exported = s.export_range(10, 20).unwrap();
    assert_eq!(exported.len(), 11); // inclusive
    assert_eq!(exported[0].id, 10);
    assert_eq!(exported[10].id, 20);
}

#[test]
fn test_stress_100k_lines() {
    let mut s = make_storage();
    // Insert in batches of 1000
    for batch_start in (0..100_000).step_by(1000) {
        let batch: Vec<(i64, &str)> =
            (batch_start..batch_start + 1000).map(|i| (i * 1000, "stress")).collect();
        s.insert_lines(&batch).unwrap();
    }

    let stats = s.get_stats(0).unwrap();
    assert_eq!(stats.total_lines, 100_000);

    // Verify no gaps: check first and last
    let first = s.read_lines(1, 1).unwrap();
    assert_eq!(first[0].id, 1);

    let last = s.read_lines(100_000, 1).unwrap();
    assert_eq!(last[0].id, 100_000);
}

#[test]
fn ids_continue_after_clear() {
    let mut s = make_storage();
    s.insert_lines(&[(1, "a"), (2, "b")]).unwrap();
    s.clear(None).unwrap();
    assert!(s.read_lines(1, 10).unwrap().is_empty());
    s.insert_lines(&[(3, "c")]).unwrap();
    assert_eq!(s.read_lines(1, 10).unwrap()[0].id, 3);
}

#[test]
fn trim_keeps_the_newest() {
    let mut s = make_storage();
    s.insert_lines(&[(1, "a"), (2, "b"), (3, "c"), (4, "d")]).unwrap();
    s.trim_lines(0).unwrap();
    assert_eq!(s.get_stats(0).unwrap().total_lines, 4);
    s.trim_lines(2).unwrap();
    let left = s.read_lines(1, 10).unwrap();
    assert_eq!(left.len(), 2);
    assert_eq!((left[0].id, left[0].payload.as_str()), (3, "c"));
    assert_eq!((left[1].id, left[1].payload.as_str()), (4, "d"));
    s.trim_lines(10).unwrap();
    assert_eq!(s.get_stats(0).unwrap().total_lines, 2);
    assert!(matches!(s.trim_lines(u64::MAX), Err(StorageError::Sqlite(_))));
}

#[test]
fn pages_join_without_gap_or_repeat() {
    let mut s = make_storage();
    let batch: Vec<(i64, &str)> = (0..25).map(|i| (i, "p")).collect();
    s.insert_lines(&batch).unwrap();
    let mut ids: Vec<i64> = Vec::new();
    let mut next = 1;
    loop {
        let page = s.read_lines(next, 10).unwrap();
        if page.is_empty() {
            break;
        }
        ids.extend(page.iter().map(|l| l.id));
        next = page[page.len() - 1].id + 1;
    }
    assert_eq!(ids, (1..=25).collect::<Vec<i64>>());
}

#[test]
fn statistics_count_utf8_bytes() {
    let mut s = make_storage();
    let empty = s.get_stats(77).unwrap();
    assert_eq!((empty.total_lines, empty.total_bytes), (0, 0));
    assert_eq!(empty.last_timestamp_ns, None);
    assert_eq!(empty.db_size_bytes, 77);
    s.insert_lines(&[(5, "é€"), (3, "a\u{0}b")]).unwrap();
    let stats = s.get_stats(0).unwrap();
    assert_eq!(stats.total_bytes, 5 + 3);
    assert_eq!(stats.last_timestamp_ns, Some(5));
    assert_eq!(s.last_id().unwrap(), Some(2));
}

#[test]
fn last_id_of_an_empty_buffer() {
    let mut s = make_storage();
    assert_eq!(s.last_id().unwrap(), None);
}

#[test]
fn substrings_are_literal() {
    let mut s = make_storage();
    s.insert_lines(&[(1, "load 100%"), (2, "load 100 of"), (3, "a_b"), (4, "axb"), (5, "nul\u{0}tail"), (6, "a_c"), (7, "A_C")])
        .unwrap();
    let ids = |v: Vec<devserial::storage::StoredLine>| v.iter().map(|l| l.id).collect::<Vec<i64>>();
    assert_eq!(ids(s.search_substring("100%", None, 10).unwrap()), vec![1]);
    assert_eq!(ids(s.search_substring("a_b", None, 10).unwrap()), vec![3]);
    assert_eq!(ids(s.search_substring("load", None, 10).unwrap()), vec![1, 2]);
    assert!(s.search_substring("LOAD", None, 10).unwrap().is_empty());
    assert_eq!(ids(s.search_substring("a_c", None, 10).unwrap()), vec![6]);
    assert_eq!(ids(s.search_substring("A_C", None, 10).unwrap()), vec![7]);
    assert_eq!(ids(s.search_substring("tail", None, 10).unwrap()), vec![5]);
    assert_eq!(ids(s.search_substring("", None, 3).unwrap()), vec![1, 2, 3]);
}

#[test]
fn stored_text_comes_back_unchanged() {
    let mut s = make_storage();
    let text = "tab\t\"quote\" nul\u{0} Ünï — 中";
    s.insert_lines(&[(i64::MIN, text), (i64::MAX, "")]).unwrap();
    let v = s.read_lines(1, 10).unwrap();
    assert_eq!(v[0].payload, text);
    assert_eq!(v[0].timestamp_ns, i64::MIN);
    assert_eq!(v[1].payload, "");
    assert_eq!(v[1].timestamp_ns, i64::MAX);
}

#[test]
fn an_empty_batch_stores_nothing() {
    let mut s = make_storage();
    s.insert_lines(&[]).unwrap();
    assert_eq!(s.get_stats(0).unwrap().total_lines, 0);
}

#[test]
fn send_history_is_capped_and_ordered() {
    let mut s = make_storage();
    for i in 0..1005 {
        s.append_send_history(i, &format!("cmd {i}")).unwrap();
    }
    let all = s.load_send_history(5000).unwrap();
    assert_eq!(all.len(), 1000);
    assert_eq!(all[0], "cmd 5");
    assert_eq!(all[999], "cmd 1004");
    assert_eq!(s.load_send_history(2).unwrap(), vec!["cmd 1003", "cmd 1004"]);
}

#[test]
fn memory_is_not_archived() {
    let mut s = make_storage();
    assert_eq!(s.db_path(), ":memory:");
    s.insert_lines(&[(1, "a")]).unwrap();
    assert!(s.clear(Some("file:never.db?mode=memory&cache=shared")).unwrap().is_none());
    assert_eq!(s.get_stats(0).unwrap().total_lines, 0);
}

#[test]
fn two_connections_share_a_named_database() {
    let path = "file:devserial_shared_lines?mode=memory&cache=shared";
    let mut a = SqliteStorage::open(path).unwrap();
    let mut b = SqliteStorage::open(path).unwrap();
    a.insert_lines(&[(1, "from a")]).unwrap();
    b.insert_lines(&[(2, "from b")]).unwrap();
    let seen = a.read_lines(1, 10).unwrap();
    assert_eq!(seen.len(), 2);
    assert_eq!(seen[1].payload, "from b");
    assert_eq!(a.db_path(), path);
}

#[test]
fn a_missing_directory_is_an_error() {
    match SqliteStorage::open("/nonexistent_dir_xyz/port.db") {
        Ok(_) => panic!("opened"),
        Err(StorageError::Sqlite(e)) => {
            let reason = e.to_string();
            assert!(!reason.is_empty());
            assert_eq!(StorageError::Sqlite(e).message(), format!("sqlite error: {reason}"));
        }
        Err(_) => unreachable!(),
    }
}

#[test]
fn test_file_based_storage() {
    let db_path = "file:port.db?mode=memory&cache=shared";

    let mut s = SqliteStorage::open(db_path).unwrap();
    s.insert_lines(&[(1000, "persistent")]).unwrap();
    assert_eq!(s.db_path(), db_path);

    let other = rusqlite::Connection::open(db_path).unwrap();
    let pages: u64 = other.query_row("PRAGMA page_count", (), |r| r.get(0)).unwrap();
    let page_size: u64 = other.query_row("PRAGMA page_size", (), |r| r.get(0)).unwrap();
    let stats = s.get_stats(pages * page_size).unwrap();
    assert_eq!(stats.total_lines, 1);
    assert!(stats.db_size_bytes > 0);
    assert_eq!(stats.db_size_bytes, pages * page_size);

    let mut again = SqliteStorage::open(db_path).unwrap();
    assert_eq!(again.read_lines(1, 10).unwrap()[0].payload, "persistent");
}

#[test]
fn test_clear_with_archive() {
    let address = |file: &str| format!("file:{file}?mode=memory&cache=shared");
    let db_path = address("test.db");
    let archive_path = address("archive.db");

    let mut s = SqliteStorage::open(&db_path).unwrap();
    s.insert_lines(&[(1000, "preserved")]).unwrap();
    s.append_send_history(5, "sent").unwrap();
    let archive = s.clear(Some(archive_path.as_str())).unwrap();

    // Active DB is empty
    assert_eq!(s.get_stats(0).unwrap().total_lines, 0);
    assert_eq!(s.load_send_history(10).unwrap(), vec!["sent"]);
    // Archive exists, and holds what was cleared
    assert!(archive.is_some());
    let mut read = SqliteStorage::open(&archive_path).unwrap();
    let lines = read.read_lines(1, 10).unwrap();
    assert_eq!(lines.len(), 1);
    assert_eq!((lines[0].id, lines[0].timestamp_ns), (1, 1000));
    assert_eq!(lines[0].payload, "preserved");
    assert_eq!(read.load_send_history(10).unwrap(), vec!["sent"]);

    // A later archive takes the place of what was there
    s.insert_lines(&[(2000, "next"), (3000, "last")]).unwrap();
    drop(archive);
    s.clear(Some(archive_path.as_str())).unwrap();
    let lines = read.read_lines(1, 10).unwrap();
    assert_eq!(lines.iter().map(|l| l.id).collect::<Vec<i64>>(), vec![2, 3]);
    assert_eq!(lines[1].payload, "last");
    assert!(s.read_lines(1, 10).unwrap().is_empty());

    // Both go on counting where they were
    s.clear(Some(archive_path.as_str())).unwrap();
    read.insert_lines(&[(1, "in the archive")]).unwrap();
    s.insert_lines(&[(1, "in the buffer")]).unwrap();
    assert_eq!(read.last_id().unwrap(), Some(4));
    assert_eq!(s.last_id().unwrap(), Some(4));
}

#[test]
fn an_archive_counts_on_from_the_buffer() {
    let mut s = SqliteStorage::open("file:counted.db?mode=memory&cache=shared").unwrap();
    let batch: Vec<(i64, &str)> = (0..9).map(|i| (i, "x")).collect();
    s.insert_lines(&batch).unwrap();
    s.clear(None).unwrap();
    s.append_send_history(1, "a").unwrap();
    let path = "file:counting_archive.db?mode=memory&cache=shared";
    let mut archive = s.clear(Some(path)).unwrap().unwrap();
    archive.insert_lines(&[(1, "y")]).unwrap();
    assert_eq!(archive.last_id().unwrap(), Some(10));
}

#[test]
fn opening_keeps_what_is_there() {
    let path = "file:kept_rows.db?mode=memory&cache=shared";
    let mut first = SqliteStorage::open(path).unwrap();
    first.insert_lines(&[(1, "a"), (2, "b")]).unwrap();
    first.append_send_history(3, "c").unwrap();
    let mut second = SqliteStorage::open(path).unwrap();
    assert_eq!(second.read_lines(1, 10).unwrap().len(), 2);
    assert_eq!(second.load_send_history(10).unwrap(), vec!["c"]);
}

#[test]
fn a_failed_batch_adds_nothing() {
    let path = "file:failed_batch.db?mode=memory&cache=shared";
    let mut s = SqliteStorage::open(path).unwrap();
    s.insert_lines(&[(1, "a")]).unwrap();
    let other = rusqlite::Connection::open(path).unwrap();
    other
        .execute_batch(
            "CREATE TRIGGER refuse BEFORE INSERT ON lines WHEN NEW.payload = 'bad' \
             BEGIN SELECT RAISE(ABORT, 'refused'); END;",
        )
        .unwrap();
    assert!(matches!(s.insert_lines(&[(2, "b"), (3, "bad")]), Err(StorageError::Sqlite(_))));
    assert_eq!(s.read_lines(1, 10).unwrap().len(), 1);
    s.insert_lines(&[(4, "c")]).unwrap();
    assert_eq!(s.get_stats(0).unwrap().total_lines, 2);
}

#[test]
fn what_cannot_be_archived_is_not_cleared() {
    let mut s = SqliteStorage::open("file:kept.db?mode=memory&cache=shared").unwrap();
    s.insert_lines(&[(1, "a")]).unwrap();
    assert!(s.clear(Some("/nonexistent_dir_xyz/archive.db")).is_err());
    assert_eq!(s.read_lines(1, 10).unwrap()[0].payload, "a");
    s.insert_lines(&[(2, "b")]).unwrap();
    assert_eq!(s.get_stats(0).unwrap().total_lines, 2);
}

#[test]
fn lines_in_a_time_range() {
    let mut s = make_storage();
    s.insert_lines(&[(1, "a"), (5, "b"), (9, "c")]).unwrap();
    assert_eq!(s.lines_in(None).unwrap().len(), 3);
    let some = s.lines_in(Some(TimeRange { start_ns: 5, end_ns: 8 })).unwrap();
    assert_eq!(some.len(), 1);
    assert_eq!(some[0].payload, "b");
}

#[test]
fn files_that_cannot_be_used() {
    assert_eq!(StorageError::Io("no space".into()).message(), "io error: no space");
}

#[test]
fn statistics_of_nothing() {
    let stats = BufferStats::default();
    assert_eq!((stats.total_lines, stats.total_bytes, stats.db_size_bytes), (0, 0, 0));
    assert_eq!(stats.last_timestamp_ns, None);
}
