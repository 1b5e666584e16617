//! The engine of one stream on a device.

use vstd::prelude::*;

use crate::action::{acts_of, record_delivery, record_flush, record_send, Action};
use crate::command::{lemma_run_rests, run, step, Lifecycle, StreamIds, Verdict};
use crate::error::RustADBError;
use crate::message::{frames_of, ADBTransportMessage, MessageCommand};
use crate::shell::{
    chunks_of, drain, drain_answer, drain_verdict, lemma_drain_rests, pump, session_result,
    InputEnd,
};

verus! {

/// How far a command stream has come with the frames it was handed.
#[derive(Clone, Copy, Debug, PartialEq, Eq, Structural)]
pub struct Progress {
    /// How many of the frames it read, from the front.
    pub consumed: usize,
    /// Whether the final close was confirmed.
    pub closed: bool,
}

/// One established stream on a device: its identifiers and, while a command
/// runs on it, where that command's stream stands.
#[derive(Clone, Debug, PartialEq, Eq)]
pub struct ADBMessageDevice {
    ids: StreamIds,
    lifecycle: Lifecycle,
}

impl ADBMessageDevice {
    /// The identifiers of the stream.
    pub closed spec fn ids(&self) -> StreamIds {
        self.ids
    }

    /// Where the command's stream stands.
    pub closed spec fn lifecycle(&self) -> Lifecycle {
        self.lifecycle
    }

    /// The engine of a stream that was just established: no data has
    /// arrived on it yet.
    pub fn new(local_id: u32, remote_id: u32) -> (device: Self)
        ensures
            device.ids() == (StreamIds { local_id, remote_id }),
            device.lifecycle() == Lifecycle::AwaitingFinalClose,
    {
        ADBMessageDevice {
            ids: StreamIds { local_id, remote_id },
            lifecycle: Lifecycle::AwaitingFinalClose,
        }
    }

    pub fn get_local_id(&self) -> (id: u32)
        ensures
            id == self.ids().local_id,
    {
        self.ids.local_id
    }

    pub fn get_remote_id(&self) -> (id: u32)
        ensures
            id == self.ids().remote_id,
    {
        self.ids.remote_id
    }

    pub fn state(&self) -> (state: Lifecycle)
        ensures
            state == self.lifecycle(),
    {
        self.lifecycle
    }

    /// The acknowledgment that this stream owes the device for a data frame.
    pub fn acknowledgment(&self) -> (message: ADBTransportMessage)
        ensures
            message@ == self.ids().ack(),
    {
        let empty: [u8; 0] = [];
        let message = ADBTransportMessage::new(
            MessageCommand::Okay,
            self.ids.local_id,
            self.ids.remote_id,
            empty.as_slice(),
        );
        assert(message@.payload =~= Seq::empty());
        message
    }

    /// The close with which this stream confirms a close of the device.
    pub fn close_confirmation(&self) -> (message: ADBTransportMessage)
        ensures
            message@ == self.ids().close(),
    {
        let empty: [u8; 0] = [];
        let message = ADBTransportMessage::new(
            MessageCommand::Clse,
            self.ids.local_id,
            self.ids.remote_id,
            empty.as_slice(),
        );
        assert(message@.payload =~= Seq::empty());
        message
    }

    /// Takes one inbound frame of a command's stream and appends to
    /// `actions` what the caller has to do about it, in order.
    ///
    /// A data frame is acknowledged and delivered. An acknowledgment, and a
    /// close of another stream, are passed over. A close of this stream is
    /// confirmed with a close; it ends the stream unless data has arrived
    /// since the last confirmed close. Any other command breaks the stream.
    /// A closed stream reacts to nothing.
    pub fn receive(
        &mut self,
        message: &ADBTransportMessage,
        actions: &mut Vec<Action>,
    ) -> (verdict: Verdict)
        ensures
            final(self).ids() == old(self).ids(),
            ({
                let taken = step(old(self).ids(), old(self).lifecycle(), message@);
                &&& final(self).lifecycle() == taken.state
                &&& acts_of(final(actions)@) == acts_of(old(actions)@) + taken.acts
                &&& verdict == taken.verdict
            }),
    {
        if self.lifecycle == Lifecycle::Closed {
            return Verdict::Finished;
        }
        let header = message.header();
        match header.command() {
            MessageCommand::Write => {
                record_send(actions, self.acknowledgment());
                record_delivery(actions, message.payload().as_slice());
                self.lifecycle = Lifecycle::Open;
                Verdict::Continue
            },
            MessageCommand::Okay => Verdict::Continue,
            MessageCommand::Clse => {
                if header.arg1() == self.ids.local_id && header.arg0() == self.ids.remote_id {
                    record_send(actions, self.close_confirmation());
                    if self.lifecycle == Lifecycle::Open {
                        self.lifecycle = Lifecycle::AwaitingFinalClose;
                        Verdict::Continue
                    } else {
                        self.lifecycle = Lifecycle::Closed;
                        Verdict::Finished
                    }
                } else {
                    Verdict::Continue
                }
            },
            MessageCommand::Other(tag) => Verdict::Failed(
                RustADBError::ADBRequestFailed(MessageCommand::Other(tag)),
            ),
        }
    }

    /// Runs a command's stream over the frames that arrived, in arrival
    /// order, until the final close is confirmed, a frame breaks the
    /// stream, or the frames run out. What the caller has to do is appended
    /// to `actions`, in order; frames behind the final close or behind the
    /// breaking frame are left unread. The stream keeps its state, so the
    /// frames may be handed over in as many calls as they come in.
    pub fn shell_command(
        &mut self,
        inbound: &Vec<ADBTransportMessage>,
        actions: &mut Vec<Action>,
    ) -> (result: Result<Progress, RustADBError>)
        ensures
            final(self).ids() == old(self).ids(),
            ({
                let done = run(old(self).ids(), old(self).lifecycle(), frames_of(inbound@));
                &&& final(self).lifecycle() == done.state
                &&& acts_of(final(actions)@) == acts_of(old(actions)@) + done.acts
                &&& match result {
                    Ok(progress) => {
                        &&& done.failure is None
                        &&& progress.consumed == done.consumed
                        &&& progress.closed == (done.state == Lifecycle::Closed)
                    },
                    Err(error) => done.failure == Some(error),
                }
            }),
    {
        let ghost ids = self.ids();
        let ghost start = self.lifecycle();
        let ghost frames = frames_of(inbound@);
        let mut i: usize = 0;
        while i < inbound.len() && self.lifecycle != Lifecycle::Closed
            invariant
                i <= inbound.len(),
                frames == frames_of(inbound@),
                ids == old(self).ids(),
                start == old(self).lifecycle(),
                self.ids() == ids,
                ({
                    let so_far = run(ids, start, frames.take(i as int));
                    &&& so_far.state == self.lifecycle()
                    &&& so_far.failure is None
                    &&& so_far.consumed == i
                    &&& acts_of(actions@) == acts_of(old(actions)@) + so_far.acts
                }),
            decreases inbound.len() - i,
        {
            let verdict = self.receive(&inbound[i], actions);
            assert(frames.take(i + 1).drop_last() == frames.take(i as int));
            i = i + 1;
            if let Verdict::Failed(error) = verdict {
                proof {
                    lemma_run_rests(ids, start, frames, i as int);
                }
                return Err(error);
            }
        }
        proof {
            if self.lifecycle() == Lifecycle::Closed {
                lemma_run_rests(ids, start, frames, i as int);
            } else {
                assert(frames.take(i as int) == frames);
            }
        }
        Ok(Progress { consumed: i, closed: self.lifecycle == Lifecycle::Closed })
    }

    /// Takes one inbound frame of an interactive session and appends to
    /// `actions` what the caller has to do about it, in order. The frame is
    /// acknowledged whatever it is; a data frame is then delivered and
    /// flushed, an acknowledgment is passed over, and anything else ends
    /// the inbound half.
    pub fn shell_receive(
        &self,
        message: &ADBTransportMessage,
        actions: &mut Vec<Action>,
    ) -> (verdict: Verdict)
        ensures
            acts_of(final(actions)@) == acts_of(old(actions)@) + drain_answer(
                self.ids(),
                message@,
            ),
            verdict == drain_verdict(message@),
    {
        record_send(actions, self.acknowledgment());
        match message.header().command() {
            MessageCommand::Write => {
                record_delivery(actions, message.payload().as_slice());
                record_flush(actions);
                Verdict::Continue
            },
            MessageCommand::Okay => Verdict::Continue,
            _ => Verdict::Failed(RustADBError::ADBShellNotSupported),
        }
    }

    /// Runs the inbound half of an interactive session over the frames that
    /// arrived, in arrival order, until a frame ends it or the frames run
    /// out. What the caller has to do is appended to `actions`, in order;
    /// frames behind the one that ended it are left unread.
    pub fn shell_drain(
        &self,
        inbound: &Vec<ADBTransportMessage>,
        actions: &mut Vec<Action>,
    ) -> (result: Result<(), RustADBError>)
        ensures
            acts_of(final(actions)@) == acts_of(old(actions)@) + drain(
                self.ids(),
                frames_of(inbound@),
            ).acts,
            match result {
                Ok(()) => drain(self.ids(), frames_of(inbound@)).failure is None,
                Err(error) => drain(self.ids(), frames_of(inbound@)).failure == Some(error),
            },
    {
        let ghost ids = self.ids();
        let ghost frames = frames_of(inbound@);
        let mut i: usize = 0;
        while i < inbound.len()
            invariant
                i <= inbound.len(),
                frames == frames_of(inbound@),
                ids == self.ids(),
                drain(ids, frames.take(i as int)).failure is None,
                acts_of(actions@) == acts_of(old(actions)@) + drain(ids, frames.take(i as int)).acts,
            decreases inbound.len() - i,
        {
            let verdict = self.shell_receive(&inbound[i], actions);
            assert(frames.take(i + 1).drop_last() == frames.take(i as int));
            i = i + 1;
            if let Verdict::Failed(error) = verdict {
                proof {
                    lemma_drain_rests(ids, frames, i as int);
                }
                return Err(error);
            }
        }
        assert(frames.take(i as int) == frames);
        Ok(())
    }

    /// Frames a chunk of local input as a data frame to the device.
    pub fn shell_write(&self, chunk: &[u8]) -> (message: ADBTransportMessage)
        ensures
            message@ == self.ids().data(chunk@),
    {
        ADBTransportMessage::new(
            MessageCommand::Write,
            self.ids.local_id,
            self.ids.remote_id,
            chunk,
        )
    }

    /// Runs the outbound half of an interactive session over the chunks
    /// that the input source gave before it came to `end`: the sending of
    /// each chunk as one data frame is appended to `actions`, in order, and
    /// the way the input ended decides the result of the session.
    pub fn shell(
        &self,
        chunks: &Vec<Vec<u8>>,
        end: InputEnd,
        actions: &mut Vec<Action>,
    ) -> (result: Result<(), RustADBError>)
        ensures
            acts_of(final(actions)@) == acts_of(old(actions)@) + pump(
                self.ids(),
                chunks_of(chunks@),
            ),
            result == session_result(end),
    {
        let ghost all = pump(self.ids(), chunks_of(chunks@));
        let mut i: usize = 0;
        while i < chunks.len()
            invariant
                i <= chunks.len(),
                all == pump(self.ids(), chunks_of(chunks@)),
                acts_of(actions@) == acts_of(old(actions)@) + all.take(i as int),
            decreases chunks.len() - i,
        {
            record_send(actions, self.shell_write(chunks[i].as_slice()));
            i = i + 1;
        }
        end.outcome()
    }
}

} // verus!
