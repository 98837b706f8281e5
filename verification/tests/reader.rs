use devserial::reader::{
    after_failed_send, backoff_ms, flush_batch, process_bytes, store_batch, ConnectionState,
    IngestedLine, Link, LinkAction, LinkEvent, ReadEvent, ReadNext, ReaderCore, Reconnect,
};
use devserial::storage::SqliteStorage;
use devserial::testutil::mock_serial::line_bytes;

fn test_storage() -> SqliteStorage {
    SqliteStorage::open_memory().unwrap()
}

/// Feed chunks to a reader, shut it down, and store what it hands out.
fn ingest(chunks: &[Vec<u8>], storage: &mut SqliteStorage) {
    let mut core = ReaderCore::new(b'\n', 1000);
    let mut now = 100;
    for c in chunks {
        let action = core.step(ReadEvent::Data(c.clone()), now);
        assert_eq!(action.next, ReadNext::Continue);
        if !action.send.is_empty() {
            store_batch(storage, &action.send, 0).stored.unwrap();
        }
        now += 10;
    }
    let action = core.step(ReadEvent::Shutdown, now);
    assert_eq!(action.next, ReadNext::Stop);
    if !action.send.is_empty() {
        store_batch(storage, &action.send, 0).stored.unwrap();
    }
}

#[test]
fn test_read_lines_from_mock() {
    let mut storage = test_storage();
    ingest(&[line_bytes("hello"), line_bytes("world"), line_bytes("test")], &mut storage);

    let lines = storage.read_lines(1, 10).unwrap();
    assert_eq!(lines.len(), 3);
    assert_eq!(lines[0].payload, "hello");
    assert_eq!(lines[1].payload, "world");
    assert_eq!(lines[2].payload, "test");
}

#[test]
fn test_partial_line_buffering() {
    let mut storage = test_storage();
    ingest(&[b"partial".to_vec(), b" line\n".to_vec()], &mut storage);

    let lines = storage.read_lines(1, 10).unwrap();
    assert_eq!(lines.len(), 1);
    assert_eq!(lines[0].payload, "partial line");
}

#[test]
fn test_disconnect_state_change() {
    let mut core = ReaderCore::new(b'\n', 1000);
    let action = core.step(ReadEvent::Failed, 1);
    assert_eq!(action.next, ReadNext::Lost);
    assert!(action.send.is_empty());
    let mut link = Link::new(true, 1000, 30_000);
    assert_eq!(
        link.step(LinkEvent::Ended(action.next), 0),
        LinkAction::Report { show: ConnectionState::Disconnected { since_ms: 0, attempts: 0 } }
    );
    match link.step(LinkEvent::Reported, 0) {
        LinkAction::Wait { show, ms } => {
            assert!(matches!(show, ConnectionState::Disconnected { .. }));
            assert_eq!(ms, 1000);
        }
        _ => unreachable!(),
    }
}

#[test]
fn reader_test_timestamps_monotonic() {
    let mut storage = test_storage();
    let chunks: Vec<Vec<u8>> = (0..10).map(|i| line_bytes(&format!("line {i}"))).collect();
    ingest(&chunks, &mut storage);

    let lines = storage.read_lines(1, 10).unwrap();
    assert_eq!(lines.len(), 10);
    for window in lines.windows(2) {
        assert!(window[1].timestamp_ns >= window[0].timestamp_ns);
    }
}

#[test]
fn test_binary_data_no_panic() {
    let mut storage = test_storage();
    ingest(&[vec![0xFF, 0xFE, 0x00, b'\n']], &mut storage);

    let lines = storage.read_lines(1, 10).unwrap();
    assert_eq!(lines.len(), 1);
    assert!(!lines[0].payload.is_empty());
}

#[test]
fn test_many_lines_no_loss() {
    let mut storage = test_storage();
    let chunks: Vec<Vec<u8>> = (0..1000).map(|i| line_bytes(&format!("line {i}"))).collect();
    ingest(&chunks, &mut storage);

    let stats = storage.get_stats(0).unwrap();
    assert_eq!(stats.total_lines, 1000);
}

#[test]
fn test_auto_reconnect() {
    // The first attempt fails, the second succeeds
    let mut link = Link::new(true, 50, 30_000);
    let mut count = 0;
    let mut state = ConnectionState::Connected;
    let mut waited: u128 = 0;
    let mut event = LinkEvent::Ended(ReadNext::Lost);
    loop {
        match link.step(event, waited) {
            LinkAction::Report { show } => {
                state = show;
                assert!(matches!(state, ConnectionState::Disconnected { .. }));
                event = LinkEvent::Reported;
            }
            LinkAction::Wait { show, ms } => {
                state = show;
                assert!(matches!(state, ConnectionState::Disconnected { .. }));
                waited += u128::from(ms);
                event = LinkEvent::Waited;
            }
            LinkAction::Try { show } => {
                state = show;
                assert_eq!(state, ConnectionState::Reconnecting);
                count += 1;
                event = if count >= 2 { LinkEvent::Connected } else { LinkEvent::Refused };
            }
            LinkAction::Resume { show } => {
                state = show;
                break;
            }
            LinkAction::End { .. } => unreachable!(),
        }
    }
    assert!(waited < 500);
    assert_eq!(state, ConnectionState::Connected);
    assert!(count >= 2);
}

#[test]
fn chunks_do_not_matter() {
    let data = b"one\ntwo\r\n\nthree";
    let whole = {
        let (mut p, mut b) = (Vec::new(), Vec::new());
        process_bytes(data, b'\n', 7, &mut p, &mut b);
        (p, b.iter().map(|l| l.payload.clone()).collect::<Vec<String>>())
    };
    for cut in 0..data.len() {
        let (mut p, mut b) = (Vec::new(), Vec::new());
        process_bytes(&data[..cut], b'\n', 7, &mut p, &mut b);
        process_bytes(&data[cut..], b'\n', 7, &mut p, &mut b);
        let payloads: Vec<String> = b.iter().map(|l| l.payload.clone()).collect();
        assert_eq!((p, payloads), whole);
    }
    assert_eq!(whole.1, vec!["one", "two\r", ""]);
    assert_eq!(whole.0, b"three");
}

#[test]
fn flushing_ends_an_unfinished_line() {
    let mut batch = vec![IngestedLine { timestamp_ns: 1, payload: "done".into() }];
    let mut partial = b"half".to_vec();
    let out = flush_batch(&mut batch, &mut partial, 9);
    assert!(batch.is_empty() && partial.is_empty());
    assert_eq!(out.len(), 2);
    assert_eq!((out[1].timestamp_ns, out[1].payload.as_str()), (9, "half"));
    assert!(flush_batch(&mut batch, &mut partial, 10).is_empty());
}

#[test]
fn full_batches_are_sent_at_once() {
    let mut core = ReaderCore::new(b';', 2);
    let a = core.step(ReadEvent::Data(b"a;".to_vec()), 1);
    assert!(a.send.is_empty());
    let b = core.step(ReadEvent::Data(b"b;c;d".to_vec()), 2);
    assert_eq!(b.send.len(), 3);
    assert_eq!(b.send[0].timestamp_ns, 1);
    assert_eq!(b.send[2].payload, "c");
    let t = core.step(ReadEvent::Tick, 3);
    assert!(t.send.is_empty());
    assert_eq!(t.next, ReadNext::Continue);
    let e = core.step(ReadEvent::Eof, 4);
    assert_eq!(e.send.len(), 1);
    assert_eq!(e.send[0].payload, "d");
    assert_eq!(e.next, ReadNext::Stop);
}

#[test]
fn a_tick_sends_what_there_is() {
    let mut core = ReaderCore::new(b'\n', 1000);
    core.step(ReadEvent::Data(b"x\ny".to_vec()), 1);
    let t = core.step(ReadEvent::Tick, 2);
    assert_eq!(t.send.len(), 1);
    assert_eq!(t.send[0].payload, "x");
    let s = core.step(ReadEvent::Shutdown, 3);
    assert_eq!(s.send[0].payload, "y");
}

#[test]
fn a_reader_ends_when_nobody_listens() {
    assert_eq!(after_failed_send(ReadNext::Continue), ReadNext::Stop);
    assert_eq!(after_failed_send(ReadNext::Stop), ReadNext::Stop);
    assert_eq!(after_failed_send(ReadNext::Lost), ReadNext::Lost);
    let mut off = Link::new(false, 50, 100);
    assert_eq!(
        off.step(LinkEvent::Ended(ReadNext::Lost), 9),
        LinkAction::End {
            show: Some(ConnectionState::Disconnected { since_ms: 0, attempts: 0 }),
        }
    );
    let mut on = Link::new(true, 50, 100);
    assert_eq!(on.step(LinkEvent::Ended(ReadNext::Stop), 9), LinkAction::End { show: None });
    assert_eq!(on.step(LinkEvent::Shutdown, 9), LinkAction::End { show: None });
}

#[test]
fn backoff_doubles_up_to_the_cap() {
    let waits: Vec<u64> = (1..8).map(|n| backoff_ms(1000, 30_000, n)).collect();
    assert_eq!(waits, vec![1000, 2000, 4000, 8000, 16_000, 30_000, 30_000]);
    assert_eq!(backoff_ms(0, 30_000, 9), 0);
    assert_eq!(backoff_ms(5, 3, 1), 3);
    assert_eq!(backoff_ms(1, u64::MAX, u32::MAX), u64::MAX);
    assert_eq!(backoff_ms(1, u64::MAX, 64), 1u64 << 63);
}

#[test]
fn attempts_are_counted_and_shown() {
    let mut r = Reconnect::new(10, 25);
    assert_eq!(
        r.next_attempt(3),
        (ConnectionState::Disconnected { since_ms: 3, attempts: 1 }, 10)
    );
    assert_eq!(
        r.next_attempt(u128::MAX),
        (ConnectionState::Disconnected { since_ms: u64::MAX, attempts: 2 }, 20)
    );
    assert_eq!(r.next_attempt(0).1, 25);
    let mut last = Reconnect { base_ms: 1, cap_ms: 2, attempts: u32::MAX };
    last.next_attempt(0);
    assert_eq!(last.attempts, u32::MAX);
}

#[test]
fn states_in_words() {
    assert_eq!(ConnectionState::Connected.describe(), "Connected");
    assert_eq!(ConnectionState::Reconnecting.describe(), "Reconnecting");
    let s = ConnectionState::Disconnected { since_ms: 12, attempts: 3 };
    assert_eq!(s.describe(), format!("{s:?}"));
    assert_eq!(s.describe(), "Disconnected { since_ms: 12, attempts: 3 }");
    assert_eq!(s.duplicate(), s);
}

#[test]
fn an_outage_as_it_is_shown() {
    let lost = |since_ms: u64, attempts: u32| ConnectionState::Disconnected { since_ms, attempts };
    let mut link = Link::new(true, 100, 150);
    let events = [
        (LinkEvent::Ended(ReadNext::Lost), 0),
        (LinkEvent::Reported, 1),
        (LinkEvent::Waited, 101),
        (LinkEvent::Refused, 102),
        (LinkEvent::Waited, 252),
        (LinkEvent::Connected, 253),
    ];
    let actions: Vec<LinkAction> = events.iter().map(|(e, ms)| link.step(*e, *ms)).collect();
    assert_eq!(
        actions,
        vec![
            LinkAction::Report { show: lost(0, 0) },
            LinkAction::Wait { show: lost(1, 1), ms: 100 },
            LinkAction::Try { show: ConnectionState::Reconnecting },
            LinkAction::Wait { show: lost(102, 2), ms: 150 },
            LinkAction::Try { show: ConnectionState::Reconnecting },
            LinkAction::Resume { show: ConnectionState::Connected },
        ]
    );
    link.step(LinkEvent::Ended(ReadNext::Lost), 0);
    assert_eq!(
        link.step(LinkEvent::Reported, 7),
        LinkAction::Wait { show: lost(7, 1), ms: 100 }
    );
}

#[test]
fn bounded_buffers_keep_their_bound() {
    let batch: Vec<IngestedLine> =
        (0..3).map(|i| IngestedLine { timestamp_ns: i, payload: format!("l{i}") }).collect();
    let mut storage = test_storage();
    for n in 1..=4i64 {
        let outcome = store_batch(&mut storage, &batch, 5);
        assert!(outcome.stored.is_ok() && outcome.trimmed.is_ok());
        let left = storage.read_lines(1, 100).unwrap();
        assert_eq!(left.len(), if n == 1 { 3 } else { 5 });
        assert_eq!((left[left.len() - 1].id, left[left.len() - 1].payload.as_str()), (3 * n, "l2"));
    }
    let mut unlimited = test_storage();
    for _ in 0..4 {
        store_batch(&mut unlimited, &batch, 0).stored.unwrap();
    }
    assert_eq!(unlimited.get_stats(0).unwrap().total_lines, 12);
    let outcome = store_batch(&mut unlimited, &batch, u64::MAX);
    assert!(outcome.stored.is_ok() && outcome.trimmed.is_err());
    assert_eq!(unlimited.get_stats(0).unwrap().total_lines, 15);
}

#[test]
fn utf8_comes_back_as_it_is() {
    let mut storage = test_storage();
    ingest(&["Ünï — 中\n".as_bytes().to_vec(), b"\xffx".to_vec()], &mut storage);
    let lines = storage.read_lines(1, 10).unwrap();
    assert_eq!(lines[0].payload, "Ünï — 中");
    assert_eq!(lines[1].payload, "\u{fffd}x");
}
