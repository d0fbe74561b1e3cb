//! Synthetic Modbus/TCP peer for fuzzing a process through its socket calls.
//!
//! The library holds the logic of the interception pipeline: the table of
//! spoofed connections, the Modbus request/response codec with injected
//! filler content, the capture log with its magic-packet trigger, and the
//! decisions taken by the connect/send/receive hooks.

pub mod addr;
pub mod connections;
pub mod modbus;
pub mod network;
pub mod text;
pub mod utils;
pub mod wrappers;
