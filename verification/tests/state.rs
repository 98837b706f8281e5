use devserial::config::PortConfig;
use devserial::state::{port_entries, reported, StateDb, StateError};

fn to_json(config: &PortConfig) -> String {
    let mut m = serde_json::Map::new();
    m.insert("baudrate".to_string(), serde_json::Value::from(config.baudrate));
    serde_json::to_string(&m).unwrap()
}

fn from_json(json: &str) -> Option<PortConfig> {
    let v: serde_json::Value = serde_json::from_str(json).ok()?;
    let baudrate = u32::try_from(v.get("baudrate")?.as_u64()?).ok()?;
    let mut c = PortConfig::default();
    c.baudrate = baudrate;
    Some(c)
}

fn active(db: &mut StateDb) -> Vec<devserial::state::PortEntry> {
    let rows = db.active_ports().unwrap();
    let configs: Vec<Option<PortConfig>> = rows.iter().map(|(_, json)| from_json(json)).collect();
    port_entries(&rows, &configs)
}

#[test]
fn test_port_open_close() {
    let mut db = StateDb::open_memory().unwrap();
    let config = PortConfig::default();

    db.port_opened("/dev/ttyUSB0", &to_json(&config), 1).unwrap();
    let ports = active(&mut db);
    assert_eq!(ports.len(), 1);
    assert_eq!(ports[0].name, "/dev/ttyUSB0");
    assert_eq!(ports[0].config.baudrate, 115_200);

    db.port_closed("/dev/ttyUSB0").unwrap();
    let ports = active(&mut db);
    assert!(ports.is_empty());
}

#[test]
fn test_send_history() {
    let mut db = StateDb::open_memory().unwrap();

    db.append_send_history("/dev/ttyUSB0", 1, "help").unwrap();
    db.append_send_history("/dev/ttyUSB0", 2, "version").unwrap();
    db.append_send_history("/dev/ttyUSB1", 3, "other").unwrap();

    let history = db.load_send_history("/dev/ttyUSB0", 10).unwrap();
    assert_eq!(history, vec!["help", "version"]);

    let history = db.load_send_history("/dev/ttyUSB1", 10).unwrap();
    assert_eq!(history, vec!["other"]);
}

#[test]
fn test_port_reopen_preserves_config() {
    let mut db = StateDb::open_memory().unwrap();
    let mut config = PortConfig::default();
    config.baudrate = 9600;

    db.port_opened("/dev/ttyUSB0", &to_json(&config), 1).unwrap();
    let ports = active(&mut db);
    assert_eq!(ports[0].config.baudrate, 9600);
}

#[test]
fn registering_again_replaces_the_configuration() {
    let mut db = StateDb::open_memory().unwrap();
    db.port_opened("p", "{\"baudrate\":1}", 1).unwrap();
    db.port_opened("q", "{\"baudrate\":5}", 1).unwrap();
    db.port_opened("p", "{\"baudrate\":2}", 2).unwrap();
    let mut ports = db.active_ports().unwrap();
    ports.sort();
    assert_eq!(
        ports,
        vec![
            ("p".to_string(), "{\"baudrate\":2}".to_string()),
            ("q".to_string(), "{\"baudrate\":5}".to_string()),
        ]
    );
    db.port_closed("nobody").unwrap();
    assert_eq!(db.active_ports().unwrap().len(), 2);
}

#[test]
fn unreadable_entries_are_passed_over() {
    let mut db = StateDb::open_memory().unwrap();
    db.port_opened("good", "{\"baudrate\":300}", 1).unwrap();
    db.port_opened("bad", "not json", 1).unwrap();
    let ports = active(&mut db);
    assert_eq!(ports.len(), 1);
    assert_eq!(ports[0].name, "good");
    assert_eq!(ports[0].config.baudrate, 300);
}

#[test]
fn each_port_keeps_its_last_thousand_commands() {
    let mut db = StateDb::open_memory().unwrap();
    db.append_send_history("other", 0, "keep me").unwrap();
    for i in 0..1003 {
        db.append_send_history("busy", i, &format!("c{i}")).unwrap();
    }
    let busy = db.load_send_history("busy", 4000).unwrap();
    assert_eq!(busy.len(), 1000);
    assert_eq!(busy[0], "c3");
    assert_eq!(busy[999], "c1002");
    assert_eq!(db.load_send_history("other", 10).unwrap(), vec!["keep me"]);
    assert_eq!(db.load_send_history("busy", 1).unwrap(), vec!["c1002"]);
}

#[test]
fn state_survives_in_a_named_database() {
    let path = "file:devserial_shared_state?mode=memory&cache=shared";
    let mut a = StateDb::open(path).unwrap();
    a.port_opened("p", "{}", 7).unwrap();
    let mut b = StateDb::open(path).unwrap();
    assert_eq!(b.active_ports().unwrap().len(), 1);
    assert!(StateDb::open("/nonexistent_dir_xyz/config.db").is_err());
}

#[test]
fn a_directory_that_is_not_there_is_an_error() {
    let e = StateDb::open("/nonexistent-directory/config.db").err().unwrap();
    assert!(e.message().starts_with("sqlite error: "));
    assert_eq!(StateError::Io("gone".into()).message(), "io error: gone");
    assert_eq!(StateError::Json("bad key".into()).message(), "json error: bad key");
}

#[test]
fn the_outcome_of_a_statement_is_reported() {
    assert_eq!(reported(Ok::<u8, rusqlite::Error>(7)).unwrap(), 7);
    assert!(matches!(
        reported(Err::<u8, rusqlite::Error>(rusqlite::Error::InvalidQuery)),
        Err(StateError::Sqlite(rusqlite::Error::InvalidQuery))
    ));
}
