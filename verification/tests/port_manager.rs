use devserial::config::PortConfig;
use devserial::port_manager::{
    fallback, open_step, port_db_file, serial_settings, CharSize, FlowControl, OpenStage, Parity, PortAction,
    PortCommand, PortManagerError, PortRegistry, StopBits,
};
use devserial::reader::{initial_state, ConnectionState};

fn open(reg: &mut PortRegistry, name: &str) -> Result<(), PortManagerError> {
    match reg.handle(&PortCommand::OpenMock { name: name.into() }) {
        PortAction::Enrol => reg.enrol(name, PortConfig::default(), false),
        PortAction::Refuse(e) => Err(e),
        _ => unreachable!(),
    }
}

fn list(reg: &mut PortRegistry) -> Vec<String> {
    match reg.handle(&PortCommand::List) {
        PortAction::Report(names) => names,
        _ => unreachable!(),
    }
}

#[test]
fn test_open_and_list() {
    let mut reg = PortRegistry::new();
    open(&mut reg, "/dev/ttyUSB0").unwrap();
    assert_eq!(list(&mut reg), vec!["/dev/ttyUSB0"]);
    assert_eq!(initial_state(), ConnectionState::Connected);
}

#[test]
fn test_open_two_ports() {
    let mut reg = PortRegistry::new();
    open(&mut reg, "port1").unwrap();
    open(&mut reg, "port2").unwrap();
    assert_eq!(list(&mut reg).len(), 2);
}

#[test]
fn test_open_duplicate_error() {
    let mut reg = PortRegistry::new();
    open(&mut reg, "port1").unwrap();
    let err = open(&mut reg, "port1").unwrap_err();
    assert!(matches!(err, PortManagerError::AlreadyManaged(_)));
    let again = reg.enrol("port1", PortConfig::default(), true).unwrap_err();
    assert_eq!(again.message(), "port 'port1' already managed");
}

#[test]
fn test_close_port() {
    let mut reg = PortRegistry::new();
    open(&mut reg, "port1").unwrap();
    let action = reg.handle(&PortCommand::Close { name: "port1".into() });
    assert!(matches!(action, PortAction::ShutDown(_)));
    assert!(list(&mut reg).is_empty());
}

#[test]
fn test_close_nonexistent() {
    let mut reg = PortRegistry::new();
    let action = reg.handle(&PortCommand::Close { name: "nope".into() });
    assert!(matches!(action, PortAction::Refuse(PortManagerError::NotFound(_))));
}

#[test]
fn test_get_state_nonexistent() {
    let mut reg = PortRegistry::new();
    let action = reg.handle(&PortCommand::GetState { name: "nope".into() });
    assert!(matches!(action, PortAction::Refuse(PortManagerError::NotFound(_))));
}

#[test]
fn test_get_serial_port_mock_returns_no_hardware() {
    let mut reg = PortRegistry::new();
    open(&mut reg, "port1").unwrap();
    let action = reg.handle(&PortCommand::GetSerialPort { name: "port1".into() });
    assert!(matches!(action, PortAction::Refuse(PortManagerError::NoHardware(_))));
    let action = reg.handle(&PortCommand::Write { name: "port1".into() });
    assert!(matches!(action, PortAction::Refuse(PortManagerError::NoHardware(_))));
    let action = reg.handle(&PortCommand::GetStorage { name: "port1".into() });
    assert!(matches!(action, PortAction::Serve));
}

#[test]
fn closing_gives_the_settings_back() {
    let mut reg = PortRegistry::new();
    let mut c = PortConfig::default();
    c.baudrate = 9600;
    assert!(matches!(
        reg.handle(&PortCommand::OpenReal { name: "p".into() }),
        PortAction::OpenDevice
    ));
    reg.enrol("p", c, true).unwrap();
    reg.enrol("q", PortConfig::default(), true).unwrap();
    assert!(matches!(reg.handle(&PortCommand::Write { name: "p".into() }), PortAction::Serve));
    match reg.handle(&PortCommand::CloseWithConfig { name: "p".into() }) {
        PortAction::ShutDown(config) => assert_eq!(config.baudrate, 9600),
        _ => unreachable!(),
    }
    assert_eq!(list(&mut reg), vec!["q"]);
    assert!(matches!(
        reg.handle(&PortCommand::OpenReal { name: "p".into() }),
        PortAction::OpenDevice
    ));
}

#[test]
fn reconfiguring_replaces_a_managed_port() {
    let mut reg = PortRegistry::new();
    let cmd = PortCommand::Reconfigure { name: "p".into() };
    assert!(matches!(reg.handle(&cmd), PortAction::OpenDevice));
    reg.enrol("p", PortConfig::default(), true).unwrap();
    assert!(matches!(reg.handle(&cmd), PortAction::Replace(_)));
    assert!(list(&mut reg).is_empty());
    reg.enrol("p", PortConfig::default(), true).unwrap();
    assert_eq!(list(&mut reg), vec!["p"]);
}

#[test]
fn opening_in_stages() {
    assert_eq!(open_step(OpenStage::Device, None).unwrap(), OpenStage::Storage);
    assert_eq!(open_step(OpenStage::Storage, None).unwrap(), OpenStage::Reader);
    assert_eq!(open_step(OpenStage::Reader, None).unwrap(), OpenStage::Ready);
    let e = open_step(OpenStage::Storage, Some("disk full".into())).unwrap_err();
    assert_eq!(e.message(), "serial port error: disk full");
}

#[test]
fn messages_of_errors() {
    assert_eq!(PortManagerError::NotFound("x".into()).message(), "port 'x' not found");
    assert_eq!(
        PortManagerError::NoHardware("x".into()).message(),
        "port 'x' has no hardware handle (mock port)"
    );
}

#[test]
fn database_files() {
    assert_eq!(port_db_file("/dev/ttyUSB0"), "_dev_ttyUSB0.db");
    assert_eq!(port_db_file("\\\\.\\COM3"), "%5C%5C.%5CCOM3.db");
    let names = ["/dev/a_b", "/dev/a/b", "_dev_a_b", "/dev/a%5Fb", "\\dev\\a\\b"];
    for (i, a) in names.iter().enumerate() {
        for b in &names[..i] {
            assert_ne!(port_db_file(a), port_db_file(b));
        }
    }
}

#[test]
fn settings_of_a_device() {
    let mut c = PortConfig::default();
    let s = serial_settings(&c);
    assert_eq!(s.baud_rate, 115_200);
    assert_eq!(s.char_size, CharSize::Bits8);
    assert_eq!(s.stop_bits, StopBits::One);
    assert_eq!(s.parity, Parity::Absent);
    assert_eq!(s.flow_control, FlowControl::Absent);
    c.data_bits = 7;
    c.stop_bits = 2;
    c.parity = "even".into();
    c.flow_control = "hardware".into();
    let s = serial_settings(&c);
    assert_eq!(s.char_size, CharSize::Bits7);
    assert_eq!(s.stop_bits, StopBits::Two);
    assert_eq!(s.parity, Parity::Even);
    assert_eq!(s.flow_control, FlowControl::RtsCts);
    c.data_bits = 9;
    c.parity = "Odd".into();
    c.flow_control = "software".into();
    let s = serial_settings(&c);
    assert_eq!(s.char_size, CharSize::Bits8);
    assert_eq!(s.parity, Parity::Absent);
    assert_eq!(s.flow_control, FlowControl::XonXoff);
    c.data_bits = 5;
    c.parity = "odd".into();
    assert_eq!(serial_settings(&c).char_size, CharSize::Bits5);
    assert_eq!(serial_settings(&c).parity, Parity::Odd);
}

fn refusal(cmd: PortCommand) -> String {
    match PortRegistry::new().handle(&cmd) {
        PortAction::Refuse(e) => e.message(),
        _ => unreachable!(),
    }
}

#[test]
fn test_serial_read_nonexistent_port() {
    let m = refusal(PortCommand::GetStorage { name: "nonexistent".into() });
    assert_eq!(m, "port 'nonexistent' not found");
}

#[test]
fn test_serial_clear_nonexistent_port() {
    let m = refusal(PortCommand::GetStorage { name: "nope".into() });
    assert_eq!(m, "port 'nope' not found");
}

#[test]
fn test_serial_signal_nonexistent() {
    let m = refusal(PortCommand::GetSerialPort { name: "nope".into() });
    assert_eq!(m, "port 'nope' not found");
}

#[test]
fn the_others_keep_their_order_when_a_port_is_closed() {
    let mut registry = PortRegistry::new();
    for name in ["a", "b", "c"] {
        registry.enrol(name, PortConfig::default(), false).unwrap();
    }
    registry.handle(&PortCommand::Close { name: "b".into() });
    registry.enrol("b", PortConfig::default(), false).unwrap();
    match registry.handle(&PortCommand::List) {
        PortAction::Report(names) => assert_eq!(names, vec!["a", "c", "b"]),
        _ => panic!("a list is a report"),
    }
}

#[test]
fn a_failed_replacement_keeps_the_old_settings() {
    let old = || Some(PortConfig { baudrate: 9600, ..PortConfig::default() });
    assert_eq!(fallback(false, old()).unwrap().baudrate, 9600);
    assert!(fallback(true, old()).is_none());
    assert!(fallback(false, None).is_none());
}
