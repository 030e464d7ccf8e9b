//! Session lifecycle core of a VPN tunnel control panel.
//!
//! The library holds the logic that can be stated and proved: classifying
//! client log output, the bounded process log, the connection state machine,
//! configuration building and validation, and the pure decision helpers the
//! platform backends rely on. Process spawning, command execution and other
//! I/O live outside the library and hand plain values in.

pub mod app_state;
pub mod chars;
pub mod client_manager;
pub mod config;
pub mod digits;
pub mod log_tail;
pub mod process_log;
pub mod session;
pub mod state;
pub mod system;

pub use state::ConnectionState;
