//! Protocol messages: a three-word header and a byte payload.

use vstd::prelude::*;

verus! {

/// The command tag of a message header.
#[derive(Clone, Copy, Debug, PartialEq, Eq, Structural)]
pub enum MessageCommand {
    /// A data frame: its payload is meant for the output sink.
    Write,
    /// An acknowledgment: the peer may send its next data frame.
    Okay,
    /// A close: the sender wants the stream to end.
    Clse,
    /// Any tag the stream engine does not recognise, with its raw value.
    Other(u32),
}

/// The header of a message. By the wire convention `arg0` is the sender's
/// stream identifier and `arg1` the recipient's.
#[derive(Clone, Copy, Debug, PartialEq, Eq, Structural)]
pub struct ADBTransportMessageHeader {
    pub command: MessageCommand,
    pub arg0: u32,
    pub arg1: u32,
}

impl ADBTransportMessageHeader {
    pub fn new(command: MessageCommand, arg0: u32, arg1: u32) -> (header: Self)
        ensures
            header == (ADBTransportMessageHeader { command, arg0, arg1 }),
    {
        ADBTransportMessageHeader { command, arg0, arg1 }
    }

    pub fn command(&self) -> (command: MessageCommand)
        ensures
            command == self.command,
    {
        self.command
    }

    pub fn arg0(&self) -> (arg0: u32)
        ensures
            arg0 == self.arg0,
    {
        self.arg0
    }

    pub fn arg1(&self) -> (arg1: u32)
        ensures
            arg1 == self.arg1,
    {
        self.arg1
    }
}

/// What a message is, as a mathematical value.
pub ghost struct Frame {
    pub command: MessageCommand,
    pub arg0: u32,
    pub arg1: u32,
    pub payload: Seq<u8>,
}

/// One protocol message.
#[derive(Clone, Debug, PartialEq, Eq)]
pub struct ADBTransportMessage {
    header: ADBTransportMessageHeader,
    payload: Vec<u8>,
}

impl View for ADBTransportMessage {
    type V = Frame;

    closed spec fn view(&self) -> Frame {
        Frame {
            command: self.header.command,
            arg0: self.header.arg0,
            arg1: self.header.arg1,
            payload: self.payload@,
        }
    }
}

/// Appends a copy of `bytes` to `buffer`.
pub(crate) fn append_bytes(buffer: &mut Vec<u8>, bytes: &[u8])
    ensures
        final(buffer)@ == old(buffer)@ + bytes@,
{
    let mut i: usize = 0;
    while i < bytes.len()
        invariant
            i <= bytes.len(),
            buffer@ == old(buffer)@ + bytes@.take(i as int),
        decreases bytes.len() - i,
    {
        buffer.push(bytes[i]);
        i = i + 1;
    }
}

/// The frames that a sequence of messages stands for, in order.
pub open spec fn frames_of(messages: Seq<ADBTransportMessage>) -> Seq<Frame> {
    messages.map_values(|m: ADBTransportMessage| m@)
}

impl ADBTransportMessage {
    /// Builds a message from its header words and a copy of `data`.
    pub fn new(command: MessageCommand, arg0: u32, arg1: u32, data: &[u8]) -> (message: Self)
        ensures
            message@ == (Frame { command, arg0, arg1, payload: data@ }),
    {
        let mut payload: Vec<u8> = Vec::new();
        append_bytes(&mut payload, data);
        ADBTransportMessage { header: ADBTransportMessageHeader { command, arg0, arg1 }, payload }
    }

    pub fn header(&self) -> (header: ADBTransportMessageHeader)
        ensures
            header.command == self@.command,
            header.arg0 == self@.arg0,
            header.arg1 == self@.arg1,
    {
        self.header
    }

    pub fn payload(&self) -> (payload: &Vec<u8>)
        ensures
            payload@ == self@.payload,
    {
        &self.payload
    }

    pub fn into_payload(self) -> (payload: Vec<u8>)
        ensures
            payload@ == self@.payload,
    {
        self.payload
    }
}

} // verus!
