use devserial::config::{
    chosen_candidate, config_candidates, config_dir, default_data_dir, Config, ConfigError, DirVar,
    DirVars, GlobalConfig, Platform, PortConfig,
};

/// The defaults in a data directory.
fn defaults(dir: &str) -> Config {
    Config::with_global(GlobalConfig::with_dirs(dir.to_string(), format!("{dir}/archive")))
}

#[test]
fn test_default_config() {
    let config = defaults("./data");
    assert_eq!(config.global.flush_interval_ms, 100);
    assert_eq!(config.global.flush_batch_size, 1000);
    assert!(config.ports.is_empty());
    assert!(config.macros.is_empty());
}

#[test]
fn test_port_config_defaults() {
    let port = PortConfig::default();
    assert_eq!(port.baudrate, 115_200);
    assert_eq!(port.data_bits, 8);
    assert_eq!(port.parity, "none");
    assert_eq!(port.stop_bits, 1);
    assert!(port.auto_reconnect);
}

#[test]
fn test_load_config_no_file() {
    let candidates = config_candidates(Some("/nonexistent/path.toml".to_string()), None);
    assert_eq!(candidates, vec!["/nonexistent/path.toml"]);
    assert_eq!(chosen_candidate(&vec![false]), None);
    // Falls back to default since file doesn't exist
    let config = defaults("./data");
    assert_eq!(config.global.flush_interval_ms, 100);
}

#[test]
fn remaining_defaults() {
    let port = PortConfig::default();
    assert_eq!(port.flow_control, "none");
    assert_eq!(port.delimiter, b'\n');
    assert_eq!(port.reconnect_interval_ms, 1000);
    assert_eq!(port.reconnect_max_backoff_ms, 30_000);
    assert_eq!(port.max_buffer_lines, 0);
    let global = defaults("./data").clone().global;
    assert_eq!(global.log_level, "info");
    assert_eq!(global.data_dir, "./data");
    assert_eq!(global.archive_dir, "./data/archive");
}

#[test]
fn discovery_order() {
    assert_eq!(
        config_candidates(None, Some("/home/u/.config/devserial/config.toml".to_string())),
        vec!["./devserial.toml", "/home/u/.config/devserial/config.toml"]
    );
    assert_eq!(config_candidates(None, None), vec!["./devserial.toml"]);
    assert_eq!(chosen_candidate(&vec![false, true]), Some(1));
    assert_eq!(chosen_candidate(&vec![true, true]), Some(0));
}

#[test]
fn data_directories() {
    let all = DirVars { xdg_state_home: true, home: true, local_app_data: true, app_data: true };
    let none = DirVars { xdg_state_home: false, home: false, local_app_data: false, app_data: false };
    let linux = default_data_dir(Platform::Linux, all);
    assert_eq!((linux.base, linux.tail.as_str()), (Some(DirVar::XdgStateHome), "devserial"));
    let home = default_data_dir(Platform::Linux, DirVars { home: true, ..none });
    assert_eq!((home.base, home.tail.as_str()), (Some(DirVar::Home), ".local/state/devserial"));
    let mac = default_data_dir(Platform::MacOs, all);
    assert_eq!(
        (mac.base, mac.tail.as_str()),
        (Some(DirVar::Home), "Library/Application Support/devserial")
    );
    let win = default_data_dir(Platform::Windows, all);
    assert_eq!((win.base, win.tail.as_str()), (Some(DirVar::LocalAppData), "devserial"));
    for p in [Platform::Linux, Platform::MacOs, Platform::Windows, Platform::Other] {
        let d = default_data_dir(p, none);
        assert_eq!((d.base, d.tail.as_str()), (None, "./data"));
    }
    assert_eq!(config_dir(Platform::Linux, all).unwrap().tail, ".config/devserial");
    assert_eq!(config_dir(Platform::Windows, all).unwrap().base, Some(DirVar::AppData));
    assert!(config_dir(Platform::Other, all).is_none());
    assert!(config_dir(Platform::Linux, none).is_none());
}

#[test]
fn configured_port_or_default() {
    let mut config = Config::with_global(GlobalConfig::with_dirs("d".into(), "a".into()));
    let mut p = PortConfig::default();
    p.baudrate = 9600;
    config.ports.insert("/dev/ttyUSB0", p);
    assert_eq!(config.port("/dev/ttyUSB0").baudrate, 9600);
    assert_eq!(config.port("/dev/ttyUSB1").baudrate, 115_200);
    assert_eq!(config.global.data_dir, "d");
    assert_eq!(config.global.archive_dir, "a");
}

#[test]
fn error_messages() {
    let e = ConfigError::Parse("x.toml".into(), "bad".into());
    assert_eq!(e.message(), "failed to parse config file x.toml: bad");
    let e = ConfigError::Io("y.toml".into(), "gone".into());
    assert_eq!(e.message(), "failed to read config file y.toml: gone");
}
