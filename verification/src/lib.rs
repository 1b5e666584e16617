//! The stream engine of a client that runs commands on a remote device over
//! one multiplexed message transport.
//!
//! The engine performs no I/O. It is handed the frames that arrived on the
//! transport and answers with the frames to send and the bytes to deliver;
//! the caller owns the connection, the input source and the output sink.

pub mod action;
pub mod command;
pub mod device;
pub mod error;
pub mod message;
pub mod session;
pub mod shell;
