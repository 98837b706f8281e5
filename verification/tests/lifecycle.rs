//! Whole runs: from bytes of a device to stored, searched, exported and cleared lines.
use devserial::config::PortConfig;
use devserial::export::{export_text, ExportFormat};
use devserial::port_manager::{PortAction, PortCommand, PortRegistry};
use devserial::reader::{
    initial_state, store_batch, ConnectionState, Link, LinkAction, LinkEvent, ReadEvent, ReadNext, ReaderCore,
};
use devserial::storage::SqliteStorage;
use devserial::testutil::mock_serial::{line_bytes, MockCore, MockRead};

/// A port with its device, its reader and its buffer.
struct Port {
    mock: MockCore,
    core: ReaderCore,
    storage: SqliteStorage,
    state: ConnectionState,
}

impl Port {
    fn open(reg: &mut PortRegistry, name: &str) -> Port {
        let action = reg.handle(&PortCommand::OpenMock { name: name.into() });
        assert!(matches!(action, PortAction::Enrol));
        reg.enrol(name, PortConfig::default(), false).unwrap();
        Port {
            mock: MockCore::new(),
            core: ReaderCore::new(b'\n', 1000),
            storage: SqliteStorage::open_memory().unwrap(),
            state: initial_state(),
        }
    }

    fn feed(&mut self, data: Vec<u8>) -> ReadNext {
        let event = match self.mock.read(4096) {
            MockRead::Broken => ReadEvent::Failed,
            MockRead::Give(b) => ReadEvent::Data(b),
            MockRead::Receive => ReadEvent::Data(self.mock.received(data, 4096)),
        };
        self.step(event)
    }

    fn step(&mut self, event: ReadEvent) -> ReadNext {
        let action = self.core.step(event, 1);
        if !action.send.is_empty() {
            store_batch(&mut self.storage, &action.send, 0).stored.unwrap();
        }
        action.next
    }
}

/// Full lifecycle: open, stream, read, search, export, clear, close.
#[test]
fn test_full_lifecycle() {
    let mut reg = PortRegistry::new();
    let mut port = Port::open(&mut reg, "test_port");
    for i in 0..500 {
        let line = if i % 50 == 0 {
            format!("[ERROR] failure at step {i}")
        } else {
            format!("[INFO] heartbeat #{i}")
        };
        assert_eq!(port.feed(line_bytes(&line)), ReadNext::Continue);
    }
    port.step(ReadEvent::Tick);

    assert_eq!(port.state, ConnectionState::Connected);

    let lines = port.storage.read_lines(1, 10).unwrap();
    assert_eq!(lines.len(), 10);
    assert!(lines[0].payload.contains("[ERROR] failure at step 0"));

    assert_eq!(port.storage.get_stats(0).unwrap().total_lines, 500);

    let results = port.storage.search_substring("ERROR", None, 100).unwrap();
    assert_eq!(results.len(), 10);

    let lines_to_export = port.storage.export_range(1, 100).unwrap();
    assert_eq!(lines_to_export.len(), 100);
    let content = export_text(&lines_to_export, ExportFormat::Txt);
    assert_eq!(content.lines().count(), 100);

    port.storage.clear(None).unwrap();
    assert_eq!(port.storage.get_stats(0).unwrap().total_lines, 0);

    let action = reg.handle(&PortCommand::Close { name: "test_port".into() });
    assert!(matches!(action, PortAction::ShutDown(_)));
    match reg.handle(&PortCommand::List) {
        PortAction::Report(ports) => assert!(ports.is_empty()),
        _ => unreachable!(),
    }
}

/// Multi-port: two ports streaming simultaneously, no cross-contamination.
#[test]
fn test_multi_port_isolation() {
    let mut reg = PortRegistry::new();
    let mut one = Port::open(&mut reg, "port1");
    let mut two = Port::open(&mut reg, "port2");
    for i in 0..100 {
        one.feed(line_bytes(&format!("PORT1-line-{i}")));
        two.feed(line_bytes(&format!("PORT2-line-{i}")));
    }
    one.step(ReadEvent::Tick);
    two.step(ReadEvent::Tick);

    let lines1 = one.storage.read_lines(1, 200).unwrap();
    let lines2 = two.storage.read_lines(1, 200).unwrap();
    assert_eq!(lines1.len(), 100);
    assert_eq!(lines2.len(), 100);
    assert!(lines1.iter().all(|l| l.payload.starts_with("PORT1-")));
    assert!(lines2.iter().all(|l| l.payload.starts_with("PORT2-")));
}

/// Disconnect: the state changes, and what came before is stored.
#[test]
fn test_disconnect_recovery() {
    let mut reg = PortRegistry::new();
    let mut port = Port::open(&mut reg, "port1");
    port.feed(line_bytes("before disconnect"));

    port.mock.simulate_disconnect();
    let end = port.feed(b"trigger".to_vec());
    assert_eq!(end, ReadNext::Lost);
    match Link::new(true, 1000, 30_000).step(LinkEvent::Ended(end), 0) {
        LinkAction::Report { show } => {
            assert!(matches!(show, ConnectionState::Disconnected { .. }));
        }
        _ => unreachable!(),
    }

    assert_eq!(port.storage.get_stats(0).unwrap().total_lines, 1);
    assert!(matches!(
        reg.handle(&PortCommand::Close { name: "port1".into() }),
        PortAction::ShutDown(_)
    ));
}

/// A failing device is shown as disconnected while its port stays managed.
#[test]
fn test_disconnect_reflected_in_state() {
    let mut reg = PortRegistry::new();
    let mut port = Port::open(&mut reg, "port1");
    let config = PortConfig::default();
    let mut link = Link::new(
        config.auto_reconnect,
        config.reconnect_interval_ms,
        config.reconnect_max_backoff_ms,
    );

    port.mock.simulate_disconnect();
    let end = port.feed(b"trigger".to_vec());

    assert!(matches!(
        reg.handle(&PortCommand::GetState { name: "port1".into() }),
        PortAction::Serve
    ));
    match link.step(LinkEvent::Ended(end), 200) {
        LinkAction::Report { show: state } => {
            assert!(matches!(state, ConnectionState::Disconnected { .. }));
        }
        _ => unreachable!(),
    }
}
