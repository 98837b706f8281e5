use devserial::testutil::mock_serial::{line_bytes, MockCore, MockRead};

fn read(core: &mut MockCore, feed: &mut Vec<Vec<u8>>, room: usize) -> Option<Vec<u8>> {
    match core.read(room) {
        MockRead::Broken => None,
        MockRead::Give(b) => Some(b),
        MockRead::Receive => {
            if feed.is_empty() {
                Some(Vec::new())
            } else {
                Some(core.received(feed.remove(0), room))
            }
        }
    }
}

#[test]
fn test_feed_and_read() {
    let mut core = MockCore::new();
    let mut feed = vec![b"hello world".to_vec()];
    assert_eq!(read(&mut core, &mut feed, 64).unwrap(), b"hello world");
}

#[test]
fn test_feed_lines() {
    let mut core = MockCore::new();
    let mut feed = vec![line_bytes("line1"), line_bytes("line2")];
    assert_eq!(read(&mut core, &mut feed, 64).unwrap(), b"line1\n");
    assert_eq!(read(&mut core, &mut feed, 64).unwrap(), b"line2\n");
}

#[test]
fn test_write_capture() {
    let mut core = MockCore::new();
    assert_eq!(core.write(b"sent to device"), Some(14));
    assert_eq!(core.drain_written(), b"sent to device");
    assert!(core.drain_written().is_empty());
}

#[test]
fn test_disconnect_read() {
    let mut core = MockCore::new();
    core.simulate_disconnect();
    assert!(read(&mut core, &mut Vec::new(), 64).is_none());
}

#[test]
fn test_disconnect_write() {
    let mut core = MockCore::new();
    core.simulate_disconnect();
    assert_eq!(core.write(b"data"), None);
}

#[test]
fn test_reconnect() {
    let mut core = MockCore::new();
    core.simulate_disconnect();
    assert!(core.is_disconnected());
    assert!(read(&mut core, &mut Vec::new(), 64).is_none());
    core.simulate_reconnect();
    let mut feed = vec![b"back online".to_vec()];
    assert_eq!(read(&mut core, &mut feed, 64).unwrap(), b"back online");
}

#[test]
fn small_reads_keep_the_order() {
    let mut core = MockCore::new();
    let mut feed = vec![b"abcdef".to_vec(), b"gh".to_vec()];
    let mut got = Vec::new();
    for _ in 0..3 {
        got.push(read(&mut core, &mut feed, 4).unwrap());
    }
    assert_eq!(got, vec![b"abcd".to_vec(), b"ef".to_vec(), b"gh".to_vec()]);
}
