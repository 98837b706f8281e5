//! Serial hardware bridge: the decisions, formats and bookkeeping of a serial
//! monitor that keeps everything it captures in SQLite.
#![allow(unused_imports)]

pub mod clock;
pub mod config;
pub mod control;
pub mod esp;
pub mod export;
pub mod hex;
pub mod json;
pub mod monitor;
pub mod names;
pub mod pattern;
pub mod port_manager;
pub mod reader;
pub mod search;
pub mod server;
pub mod sql;
pub mod standalone;
pub mod state;
pub mod storage;
pub mod testutil;
pub mod text;
pub mod tui;
