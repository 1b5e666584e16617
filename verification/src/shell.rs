//! The interactive session: an inbound half that drains what the device
//! sends, and an outbound half that pumps local input to the device.

use vstd::prelude::*;

use crate::action::{
    delivered, lemma_delivered_in_parts, lemma_one_more_act, lemma_sent_in_parts, sent, Act,
};
use crate::command::{payloads, StreamIds, Verdict};
use crate::error::{IoFailure, RustADBError};
use crate::message::{Frame, MessageCommand};

verus! {

/// What the inbound half does about one frame. The frame is acknowledged
/// first, whatever it is. A data frame is then delivered, and the output
/// sink is flushed at once.
pub open spec fn drain_answer(ids: StreamIds, frame: Frame) -> Seq<Act> {
    if frame.command == MessageCommand::Write {
        seq![Act::Send(ids.ack()), Act::Deliver(frame.payload), Act::Flush]
    } else {
        seq![Act::Send(ids.ack())]
    }
}

/// Whether the inbound half reads on after a frame. It does after data and
/// after an acknowledgment. Anything else, a close too, ends it with an
/// error.
pub open spec fn drain_verdict(frame: Frame) -> Verdict {
    if frame.command == MessageCommand::Write || frame.command == MessageCommand::Okay {
        Verdict::Continue
    } else {
        Verdict::Failed(RustADBError::ADBShellNotSupported)
    }
}

/// What the inbound half has done with a sequence of frames.
pub ghost struct Drain {
    /// How many frames it read, from the front.
    pub consumed: nat,
    /// What it asked its caller to do, in order.
    pub acts: Seq<Act>,
    /// The error that ended it, if one did.
    pub failure: Option<RustADBError>,
}

/// The inbound half fed `frames` in arrival order: it takes one step per
/// frame until one ends it, and leaves the rest unread.
pub open spec fn drain(ids: StreamIds, frames: Seq<Frame>) -> Drain
    decreases frames.len(),
{
    if frames.len() == 0 {
        Drain { consumed: 0, acts: Seq::empty(), failure: None }
    } else {
        let before = drain(ids, frames.drop_last());
        if before.failure is Some {
            before
        } else {
            Drain {
                consumed: before.consumed + 1,
                acts: before.acts + drain_answer(ids, frames.last()),
                failure: match drain_verdict(frames.last()) {
                    Verdict::Failed(error) => Some(error),
                    _ => None,
                },
            }
        }
    }
}

/// Once the inbound half has ended, the frames behind that point change
/// nothing.
pub proof fn lemma_drain_rests(ids: StreamIds, frames: Seq<Frame>, k: int)
    requires
        0 <= k <= frames.len(),
        drain(ids, frames.take(k)).failure is Some,
    ensures
        drain(ids, frames) == drain(ids, frames.take(k)),
    decreases frames.len(),
{
    if k == frames.len() {
        assert(frames.take(k) == frames);
    } else {
        assert(frames.drop_last().take(k) == frames.take(k));
        lemma_drain_rests(ids, frames.drop_last(), k);
    }
}

/// What the answer of the inbound half to one frame sends and delivers.
pub proof fn lemma_drain_answer_alone(ids: StreamIds, frame: Frame)
    ensures
        sent(drain_answer(ids, frame)) == seq![ids.ack()],
        delivered(drain_answer(ids, frame)) == if frame.command == MessageCommand::Write {
            frame.payload
        } else {
            Seq::empty()
        },
{
    let none = Seq::<Act>::empty();
    let first = none.push(Act::Send(ids.ack()));
    lemma_one_more_act(none, Act::Send(ids.ack()));
    if frame.command == MessageCommand::Write {
        let second = first.push(Act::Deliver(frame.payload));
        lemma_one_more_act(first, Act::Deliver(frame.payload));
        lemma_one_more_act(second, Act::Flush);
        assert(drain_answer(ids, frame) == second.push(Act::Flush));
    }
}

/// Flow control of the inbound half, whatever arrives. It sends exactly one
/// acknowledgment for each frame it has read, and nothing else. What it
/// delivers is the payloads of the data frames it has read, in arrival
/// order, each directly behind the sending of its acknowledgment and
/// directly before a flush. It fails exactly when the last frame it read is
/// neither data nor an acknowledgment, and it reads on otherwise.
pub proof fn lemma_drain_acknowledges_each(ids: StreamIds, frames: Seq<Frame>)
    ensures
        ({
            let done = drain(ids, frames);
            let read = frames.take(done.consumed as int);
            &&& done.consumed <= frames.len()
            &&& sent(done.acts) == Seq::new(done.consumed, |i: int| ids.ack())
            &&& delivered(done.acts) == payloads(read)
            &&& forall|i: int|
                0 <= i < done.acts.len() && #[trigger] done.acts[i] is Deliver ==> {
                    &&& 0 < i < done.acts.len() - 1
                    &&& done.acts[i - 1] == Act::Send(ids.ack())
                    &&& done.acts[i + 1] == Act::Flush
                }
            &&& done.failure is Some ==> done.failure == Some(RustADBError::ADBShellNotSupported)
            &&& done.failure is None ==> done.consumed == frames.len()
            &&& done.failure is Some <==> done.consumed > 0 && drain_verdict(read.last())
                != Verdict::Continue
        }),
    decreases frames.len(),
{
    let done = drain(ids, frames);
    if frames.len() > 0 {
        let before = drain(ids, frames.drop_last());
        lemma_drain_acknowledges_each(ids, frames.drop_last());
        assert(frames.drop_last().take(before.consumed as int) == frames.take(
            before.consumed as int,
        ));
        if before.failure is None {
            assert(frames.take(done.consumed as int) == frames);
            let last = drain_answer(ids, frames.last());
            lemma_drain_answer_alone(ids, frames.last());
            lemma_sent_in_parts(before.acts, last);
            lemma_delivered_in_parts(before.acts, last);
        }
    }
}

/// How the outbound half came to its end.
#[derive(Clone, Copy, Debug, PartialEq, Eq, Structural)]
pub enum InputEnd {
    /// The input source has no more bytes.
    Exhausted,
    /// Reading the input or writing to the transport failed.
    Failed(IoFailure),
}

/// The result of the session, given how the outbound half ended: the end of
/// the input and a broken pipe end it with success, any other failure is
/// the session's error.
pub open spec fn session_result(end: InputEnd) -> Result<(), RustADBError> {
    match end {
        InputEnd::Exhausted => Ok(()),
        InputEnd::Failed(IoFailure::BrokenPipe) => Ok(()),
        InputEnd::Failed(failure) => Err(RustADBError::IOError(failure)),
    }
}

/// A session ends with success exactly when its input is exhausted or its
/// pipe is broken; every other failure is handed on as the session's error.
pub proof fn lemma_clean_ends(end: InputEnd)
    ensures
        session_result(end) is Ok <==> end == InputEnd::Exhausted || end == InputEnd::Failed(
            IoFailure::BrokenPipe,
        ),
        session_result(end) is Err ==> end == InputEnd::Failed(
            session_result(end)->Err_0->IOError_0,
        ),
{
}

impl InputEnd {
    /// The result of a session whose outbound half ended in this way.
    pub fn outcome(self) -> (result: Result<(), RustADBError>)
        ensures
            result == session_result(self),
    {
        match self {
            InputEnd::Exhausted => Ok(()),
            InputEnd::Failed(failure) => match failure {
                IoFailure::BrokenPipe => Ok(()),
                _ => Err(RustADBError::IOError(failure)),
            },
        }
    }
}

/// The chunks as byte sequences.
pub open spec fn chunks_of(chunks: Seq<Vec<u8>>) -> Seq<Seq<u8>> {
    chunks.map_values(|chunk: Vec<u8>| chunk@)
}

/// What the outbound half does with the chunks of input: it sends each as
/// one data frame to the device, in order.
pub open spec fn pump(ids: StreamIds, chunks: Seq<Seq<u8>>) -> Seq<Act> {
    chunks.map_values(|chunk: Seq<u8>| Act::Send(ids.data(chunk)))
}

} // verus!
