//! Core of a serial-port communication tool: one open/close/send session at a
//! time over a configurable port, a packet-framing engine that groups raw byte
//! arrivals into packets by an idle-time gap, port enumeration, and the
//! project-file text format with its send/receive command lists.
//!
//! The library holds the decisions and the data: session lifecycle, config
//! validation, framing, parsing and rendering. Device I/O, threads and timers
//! are the caller's; the session and framing types tell the caller exactly
//! what to do with the device on each step.

pub mod config;
pub mod errors;
pub mod framing;
pub mod ports;
pub mod project;
pub mod recent;
pub mod session;
pub mod text;
