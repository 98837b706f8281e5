[package]
name = "devserial"
version = "0.1.0"
edition = "2021"
publish = false

[dependencies]
chrono = { version = "0.4", default-features = false, features = ["std", "alloc", "now"] }
clap = { version = "4.5", default-features = false, features = ["std", "derive", "help", "usage", "error-context"] }
crossterm = { version = "0.28", default-features = false, features = ["events", "windows"] }
eframe = { version = "0.34", default-features = false, features = ["glow", "x11"] }
image = { version = "0.25", default-features = false, features = ["png"] }
ratatui = { version = "0.29", default-features = false, features = ["crossterm"] }
regex = "1.12"
rmcp = { version = "1.6", default-features = false, features = ["server", "macros", "transport-io"] }
rusqlite = { version = "0.37", features = ["bundled"] }
schemars = "1.2"
serde = { version = "1.0", features = ["derive"] }
serde_json = "1.0"
serial2 = "0.2"
serial2-tokio = "0.1"
thiserror = "2.0"
tokio = { version = "1.49", features = ["rt-multi-thread", "macros", "io-util", "io-std", "process", "sync", "time"] }
toml = { version = "0.9", default-features = false, features = ["std", "parse", "serde"] }
tracing = "0.1"
tracing-subscriber = { version = "0.3", default-features = false, features = ["env-filter", "fmt"] }
