//! Helpers for tests: generated serial output, and a mock of a serial device.
pub mod data_generator;
pub mod mock_serial;
