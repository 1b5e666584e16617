//! Opening a session: the request that names the service, and the check of
//! the device's answer.

use vstd::prelude::*;
use vstd::string::StringSliceAdditionalSpecFns;

use crate::error::RustADBError;
use crate::message::{append_bytes, ADBTransportMessage, MessageCommand};

verus! {

/// The words joined by single spaces.
pub open spec fn joined(words: Seq<Seq<u8>>) -> Seq<u8>
    decreases words.len(),
{
    if words.len() == 0 {
        Seq::empty()
    } else if words.len() == 1 {
        words[0]
    } else {
        joined(words.drop_last()).push(0x20u8) + words.last()
    }
}

/// The bytes `shell:`.
pub open spec fn shell_prefix() -> Seq<u8> {
    seq![0x73u8, 0x68u8, 0x65u8, 0x6cu8, 0x6cu8, 0x3au8]
}

/// The request that opens a shell session: `shell:`, the words of the
/// command joined by single spaces, and a zero byte. With no words it opens
/// an interactive session.
pub open spec fn shell_request_bytes(words: Seq<Seq<u8>>) -> Seq<u8> {
    (shell_prefix() + joined(words)).push(0u8)
}

/// The UTF-8 bytes of each word.
pub open spec fn words_of(command: Seq<&str>) -> Seq<Seq<u8>> {
    command.map_values(|word: &str| word.spec_bytes())
}

/// Builds the request that opens a shell session for `command`.
pub fn shell_request(command: &[&str]) -> (request: Vec<u8>)
    ensures
        request@ == shell_request_bytes(words_of(command@)),
{
    let ghost words = words_of(command@);
    let mut request: Vec<u8> = Vec::new();
    request.push(0x73u8);
    request.push(0x68u8);
    request.push(0x65u8);
    request.push(0x6cu8);
    request.push(0x6cu8);
    request.push(0x3au8);
    let mut i: usize = 0;
    while i < command.len()
        invariant
            i <= command.len(),
            words == words_of(command@),
            request@ == shell_prefix() + joined(words.take(i as int)),
        decreases command.len() - i,
    {
        if i > 0 {
            request.push(0x20u8);
        }
        append_bytes(&mut request, command[i].as_bytes());
        assert(words.take(i + 1).drop_last() == words.take(i as int));
        i = i + 1;
    }
    assert(words.take(i as int) == words);
    request.push(0u8);
    request
}

/// Checks the device's answer to the request that opens a session: the
/// session is open when the answer is an acknowledgment, and any other
/// answer is a failed request.
pub fn session_opened(response: &ADBTransportMessage) -> (result: Result<(), RustADBError>)
    ensures
        result == if response@.command == MessageCommand::Okay {
            Ok::<(), RustADBError>(())
        } else {
            Err(RustADBError::ADBRequestFailed(response@.command))
        },
{
    let command = response.header().command();
    match command {
        MessageCommand::Okay => Ok(()),
        _ => Err(RustADBError::ADBRequestFailed(command)),
    }
}

} // verus!
