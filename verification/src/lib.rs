//! Core logic of a line-oriented broadcast chat.
//!
//! A server fans newline-delimited text frames out to every registered
//! connection except the sender; a client multiplexes a socket and an
//! interactive input source in a single readiness-driven loop.  This crate
//! holds the verified heart of both sides: the wire-protocol framing and
//! username rules ([`protocol`]), the server's connection registry and its
//! fan-out plan ([`registry`]), the per-connection handler state machine
//! ([`handler`]), and the client's session state with partial-write
//! resumption and command parsing ([`session`]).  All I/O — sockets, polling,
//! threads, the terminal — lives outside, in a thin shell that feeds these
//! functions plain bytes and carries their decisions out.

pub mod handler;
pub mod protocol;
pub mod registry;
pub mod session;
