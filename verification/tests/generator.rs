use devserial::testutil::data_generator::TestDataGenerator;

#[test]
fn test_boot_sequence_not_empty() {
    let lines = TestDataGenerator::boot_sequence();
    assert!(!lines.is_empty());
    assert!(lines[0].contains("Bootloader"));
}

#[test]
fn test_error_burst_count() {
    let lines = TestDataGenerator::error_burst(100);
    assert_eq!(lines.len(), 100);
    assert!(lines.iter().all(|l| l.contains("[ERROR]")));
}

#[test]
fn test_sequential_lines_count() {
    let lines = TestDataGenerator::sequential_lines(500);
    assert_eq!(lines.len(), 500);
}

#[test]
fn test_mixed_traffic_has_errors() {
    let lines = TestDataGenerator::mixed_traffic(100);
    assert_eq!(lines.iter().filter(|l| l.contains("[ERROR]")).count(), 10);
}

#[test]
fn test_search_corpus_structure() {
    let lines = TestDataGenerator::search_corpus();
    assert!(lines.contains(&"exact match".to_string()));
    let error_count = lines.iter().filter(|l| l.contains("[ERROR]")).count();
    assert_eq!(error_count, 50);
}

#[test]
fn data_generator_test_timestamps_monotonic() {
    let now = chrono::Utc::now().timestamp_nanos_opt().unwrap();
    let ts = TestDataGenerator::timestamps(100, now, 10);
    for window in ts.windows(2) {
        assert!(window[1] > window[0]);
    }
}

#[test]
fn exact_lines() {
    assert_eq!(
        TestDataGenerator::error_burst(3)[2],
        "[ERROR] fault at 0x20000008: segmentation violation (iter 2)"
    );
    let seq = TestDataGenerator::sequential_lines(1502);
    assert_eq!(seq[7], format!("[{:.3}] sensor reading #7: value=294", 7f64 * 0.001));
    assert_eq!(seq[1501], "[1.501] sensor reading #1501: value=63042");
    for (i, line) in seq.iter().enumerate() {
        let t = i as f64 * 0.001;
        assert_eq!(*line, format!("[{t:.3}] sensor reading #{i}: value={}", i * 42));
    }
    let mixed = TestDataGenerator::mixed_traffic(60);
    assert_eq!(mixed[51], "[WARN] buffer usage at 51%");
    assert_eq!(mixed[12], "[PANIC] stack overflow in task_2");
    assert_eq!(mixed[3], "[DEBUG] heap free: 99328 bytes");
    assert_eq!(mixed[59], "[INFO] heartbeat #59 ok");
    let corpus = TestDataGenerator::search_corpus();
    assert_eq!(corpus.len(), 101);
    assert_eq!(corpus[55], "[2026-01-15T10:04:00Z] scheduled task completed");
    assert_eq!(corpus[100], "normal operation line 29");
}

#[test]
fn times_step_by_the_interval() {
    assert_eq!(TestDataGenerator::timestamps(3, 5, 2), vec![5, 2_000_005, 4_000_005]);
    assert_eq!(TestDataGenerator::timestamps(2, i64::MAX, 1), vec![i64::MAX, 0]);
}
