//! The ways in which driving a stream fails.

use vstd::prelude::*;

use crate::message::MessageCommand;

verus! {

/// Why reading the input or writing to the transport stopped.
#[derive(Clone, Copy, Debug, PartialEq, Eq, Structural)]
pub enum IoFailure {
    /// The reader on the other side of the pipe is gone.
    BrokenPipe,
    /// The peer reset the connection.
    ConnectionReset,
    /// The connection was aborted.
    ConnectionAborted,
    /// The transport is not connected.
    NotConnected,
    /// The operation ran out of time.
    TimedOut,
    /// The stream ended in the middle of a message.
    UnexpectedEof,
    /// Any other failure.
    Other,
}

/// Why a stream was given up.
#[derive(Clone, Copy, Debug, PartialEq, Eq, Structural)]
pub enum RustADBError {
    /// The peer sent a command that the stream does not allow at this point.
    ADBRequestFailed(MessageCommand),
    /// The peer answered an interactive session with something other than
    /// data and acknowledgments.
    ADBShellNotSupported,
    /// Reading or writing failed.
    IOError(IoFailure),
}

} // verus!
