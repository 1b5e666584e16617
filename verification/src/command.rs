//! The command stream as a state machine: what one inbound frame does to a
//! stream, and what a sequence of them does.

use vstd::prelude::*;

use crate::action::{
    delivered, lemma_delivered_in_parts, lemma_one_more_act, lemma_sent_in_parts, sent, Act,
};
use crate::error::RustADBError;
use crate::message::{Frame, MessageCommand};

verus! {

/// The identifiers of one logical stream. They are fixed when the stream is
/// established and never change.
#[derive(Clone, Copy, Debug, PartialEq, Eq, Structural)]
pub struct StreamIds {
    /// Chosen by this client.
    pub local_id: u32,
    /// Assigned by the device.
    pub remote_id: u32,
}

impl StreamIds {
    /// A frame belongs to the stream when the device sent it (`arg0`) to
    /// this client's end (`arg1`).
    pub open spec fn owns(self, frame: Frame) -> bool {
        frame.arg1 == self.local_id && frame.arg0 == self.remote_id
    }

    /// The acknowledgment that this stream sends to the device.
    pub open spec fn ack(self) -> Frame {
        Frame {
            command: MessageCommand::Okay,
            arg0: self.local_id,
            arg1: self.remote_id,
            payload: Seq::empty(),
        }
    }

    /// The close that this stream sends to the device.
    pub open spec fn close(self) -> Frame {
        Frame {
            command: MessageCommand::Clse,
            arg0: self.local_id,
            arg1: self.remote_id,
            payload: Seq::empty(),
        }
    }

    /// The data frame that carries `chunk` to the device.
    pub open spec fn data(self, chunk: Seq<u8>) -> Frame {
        Frame {
            command: MessageCommand::Write,
            arg0: self.local_id,
            arg1: self.remote_id,
            payload: chunk,
        }
    }
}

/// Where a command stream stands.
#[derive(Clone, Copy, Debug, PartialEq, Eq, Structural)]
pub enum Lifecycle {
    /// No data has arrived since the stream was established or since its
    /// last close was confirmed: the next close of this stream ends it.
    AwaitingFinalClose,
    /// Data has arrived since then: the next close of this stream only
    /// marks the end of a burst.
    Open,
    /// The final close was confirmed.
    Closed,
}

/// Whether the caller goes on reading after it has reacted to a frame.
#[derive(Clone, Copy, Debug, PartialEq, Eq, Structural)]
pub enum Verdict {
    /// The stream is alive: read the next frame.
    Continue,
    /// The stream is closed: stop, with success.
    Finished,
    /// The stream is broken: stop, with this error.
    Failed(RustADBError),
}

/// What a live stream does about one frame. A data frame is acknowledged
/// first and delivered second. A close of the stream is confirmed with a
/// close. Nothing is done about any other frame.
pub open spec fn answer(ids: StreamIds, frame: Frame) -> Seq<Act> {
    match frame.command {
        MessageCommand::Write => seq![Act::Send(ids.ack()), Act::Deliver(frame.payload)],
        MessageCommand::Clse => if ids.owns(frame) {
            seq![Act::Send(ids.close())]
        } else {
            Seq::empty()
        },
        _ => Seq::empty(),
    }
}

/// Where one frame takes a live stream, and whether the caller reads on.
/// Data opens the stream. A close of the stream ends it, unless data has
/// arrived since the last such close: then it only marks the end of a
/// burst. A command that is neither data, acknowledgment nor close breaks
/// the stream. Anything else leaves it as it is.
pub open spec fn transition(ids: StreamIds, state: Lifecycle, frame: Frame) -> (
    Lifecycle,
    Verdict,
) {
    match frame.command {
        MessageCommand::Write => (Lifecycle::Open, Verdict::Continue),
        MessageCommand::Okay => (state, Verdict::Continue),
        MessageCommand::Clse => if !ids.owns(frame) {
            (state, Verdict::Continue)
        } else if state == Lifecycle::Open {
            (Lifecycle::AwaitingFinalClose, Verdict::Continue)
        } else {
            (Lifecycle::Closed, Verdict::Finished)
        },
        MessageCommand::Other(_) => (
            state,
            Verdict::Failed(RustADBError::ADBRequestFailed(frame.command)),
        ),
    }
}

/// One step of a command stream.
pub ghost struct Step {
    /// The state after the frame.
    pub state: Lifecycle,
    /// What the caller has to do, in this order.
    pub acts: Seq<Act>,
    /// Whether the caller reads on.
    pub verdict: Verdict,
}

/// One step of the command stream in `state`. A closed stream reacts to
/// nothing; a live one answers the frame and moves on.
pub open spec fn step(ids: StreamIds, state: Lifecycle, frame: Frame) -> Step {
    if state == Lifecycle::Closed {
        Step { state, acts: Seq::empty(), verdict: Verdict::Finished }
    } else {
        let (next, verdict) = transition(ids, state, frame);
        Step { state: next, acts: answer(ids, frame), verdict }
    }
}

/// What a stream has done with a sequence of inbound frames.
pub ghost struct Run {
    /// The state it is left in.
    pub state: Lifecycle,
    /// How many frames it read, from the front.
    pub consumed: nat,
    /// What it asked its caller to do, in order.
    pub acts: Seq<Act>,
    /// The error that stopped it, if one did.
    pub failure: Option<RustADBError>,
}

impl Run {
    /// A stopped stream reads no more frames.
    pub open spec fn stopped(self) -> bool {
        self.state == Lifecycle::Closed || self.failure is Some
    }

    /// The run extended by one step.
    pub open spec fn extend(self, step: Step) -> Run {
        Run {
            state: step.state,
            consumed: self.consumed + 1,
            acts: self.acts + step.acts,
            failure: match step.verdict {
                Verdict::Failed(error) => Some(error),
                _ => None,
            },
        }
    }

    /// This run, and then `rest` from the state in which this one ended.
    pub open spec fn followed_by(self, rest: Run) -> Run {
        if self.stopped() {
            self
        } else {
            Run {
                state: rest.state,
                consumed: self.consumed + rest.consumed,
                acts: self.acts + rest.acts,
                failure: rest.failure,
            }
        }
    }
}

/// The run that has read nothing yet.
pub open spec fn idle(state: Lifecycle) -> Run {
    Run { state, consumed: 0, acts: Seq::empty(), failure: None }
}

/// A command stream that starts in `start` and is fed `frames` in arrival
/// order: it takes one step per frame until it is closed or broken, and
/// leaves the rest unread.
pub open spec fn run(ids: StreamIds, start: Lifecycle, frames: Seq<Frame>) -> Run
    decreases frames.len(),
{
    if frames.len() == 0 {
        idle(start)
    } else {
        let before = run(ids, start, frames.drop_last());
        if before.stopped() {
            before
        } else {
            before.extend(step(ids, before.state, frames.last()))
        }
    }
}

/// Once a stream has stopped, the frames behind that point change nothing.
pub proof fn lemma_run_rests(ids: StreamIds, start: Lifecycle, frames: Seq<Frame>, k: int)
    requires
        0 <= k <= frames.len(),
        run(ids, start, frames.take(k)).stopped(),
    ensures
        run(ids, start, frames) == run(ids, start, frames.take(k)),
    decreases frames.len(),
{
    if k == frames.len() {
        assert(frames.take(k) == frames);
    } else {
        assert(frames.drop_last().take(k) == frames.take(k));
        lemma_run_rests(ids, start, frames.drop_last(), k);
    }
}

/// A stream that has not stopped has read every frame it was handed.
pub proof fn lemma_run_reads_all(ids: StreamIds, start: Lifecycle, frames: Seq<Frame>)
    requires
        !run(ids, start, frames).stopped(),
    ensures
        run(ids, start, frames).consumed == frames.len(),
    decreases frames.len(),
{
    if frames.len() > 0 {
        lemma_run_reads_all(ids, start, frames.drop_last());
    }
}

/// Frames handed over in two parts do what the same frames do in one: the
/// second part takes the stream up where the first left it.
pub proof fn lemma_run_in_parts(
    ids: StreamIds,
    start: Lifecycle,
    first: Seq<Frame>,
    second: Seq<Frame>,
)
    ensures
        run(ids, start, first + second) == run(ids, start, first).followed_by(
            run(ids, run(ids, start, first).state, second),
        ),
    decreases second.len(),
{
    let head = run(ids, start, first);
    if second.len() > 0 {
        assert((first + second).drop_last() == first + second.drop_last());
        lemma_run_in_parts(ids, start, first, second.drop_last());
        let tail = run(ids, head.state, second.drop_last());
        if !head.stopped() && !tail.stopped() {
            let whole = run(ids, start, first + second);
            let joined = head.followed_by(tail.extend(step(ids, tail.state, second.last())));
            assert(whole.acts == joined.acts);
        }
    }
}

/// What a live stream does about each of `frames`, in arrival order.
pub open spec fn answers(ids: StreamIds, frames: Seq<Frame>) -> Seq<Act>
    decreases frames.len(),
{
    if frames.len() == 0 {
        Seq::empty()
    } else {
        answers(ids, frames.drop_last()) + answer(ids, frames.last())
    }
}

/// What a stream does depends on the frames it has read and on nothing
/// else: each of them is answered on its own, in arrival order. The state
/// of the stream only decides where it stops reading.
pub proof fn lemma_run_answers_each_frame(ids: StreamIds, start: Lifecycle, frames: Seq<Frame>)
    ensures
        run(ids, start, frames).consumed <= frames.len(),
        run(ids, start, frames).acts == answers(
            ids,
            frames.take(run(ids, start, frames).consumed as int),
        ),
    decreases frames.len(),
{
    let done = run(ids, start, frames);
    if frames.len() > 0 {
        let before = run(ids, start, frames.drop_last());
        lemma_run_answers_each_frame(ids, start, frames.drop_last());
        assert(frames.drop_last().take(before.consumed as int) == frames.take(
            before.consumed as int,
        ));
        if !before.stopped() {
            lemma_run_reads_all(ids, start, frames.drop_last());
            assert(frames.take(done.consumed as int) == frames);
        }
    }
}

/// The payloads of the data frames among `frames`, joined in arrival order.
pub open spec fn payloads(frames: Seq<Frame>) -> Seq<u8>
    decreases frames.len(),
{
    if frames.len() == 0 {
        Seq::empty()
    } else if frames.last().command == MessageCommand::Write {
        payloads(frames.drop_last()) + frames.last().payload
    } else {
        payloads(frames.drop_last())
    }
}

/// How many of `frames` carry `command`.
pub open spec fn count(frames: Seq<Frame>, command: MessageCommand) -> nat
    decreases frames.len(),
{
    if frames.len() == 0 {
        0
    } else if frames.last().command == command {
        count(frames.drop_last(), command) + 1
    } else {
        count(frames.drop_last(), command)
    }
}

/// How many of `frames` are closes addressed to the stream.
pub open spec fn own_closes(ids: StreamIds, frames: Seq<Frame>) -> nat
    decreases frames.len(),
{
    if frames.len() == 0 {
        0
    } else if frames.last().command == MessageCommand::Clse && ids.owns(frames.last()) {
        own_closes(ids, frames.drop_last()) + 1
    } else {
        own_closes(ids, frames.drop_last())
    }
}

/// Flow control and delivery, whatever arrives. Of the frames that are
/// answered, each data frame gets exactly one acknowledgment and each close
/// of the stream exactly one close, and nothing else is sent. What is
/// delivered is the payloads of the data frames in arrival order, each
/// directly behind the sending of its acknowledgment. Nothing is flushed.
pub proof fn lemma_one_reply_per_frame(ids: StreamIds, frames: Seq<Frame>)
    ensures
        ({
            let acts = answers(ids, frames);
            &&& count(sent(acts), MessageCommand::Okay) == count(frames, MessageCommand::Write)
            &&& count(sent(acts), MessageCommand::Clse) == own_closes(ids, frames)
            &&& sent(acts).len() == count(frames, MessageCommand::Write) + own_closes(ids, frames)
            &&& forall|i: int|
                0 <= i < sent(acts).len() ==> #[trigger] sent(acts)[i] == ids.ack() || sent(
                    acts,
                )[i] == ids.close()
            &&& delivered(acts) == payloads(frames)
            &&& forall|i: int|
                0 <= i < acts.len() && #[trigger] acts[i] is Deliver ==> i > 0 && acts[i - 1]
                    == Act::Send(ids.ack())
            &&& forall|i: int| 0 <= i < acts.len() ==> !(#[trigger] acts[i] is Flush)
        }),
    decreases frames.len(),
{
    let acts = answers(ids, frames);
    if frames.len() > 0 {
        let before = answers(ids, frames.drop_last());
        let last = answer(ids, frames.last());
        lemma_one_reply_per_frame(ids, frames.drop_last());
        lemma_sent_in_parts(before, last);
        lemma_delivered_in_parts(before, last);
        lemma_answer_alone(ids, frames.last());
        if sent(last).len() > 0 {
            assert(sent(acts).drop_last() == sent(before));
        }
    }
}

/// What the answer to one frame sends and delivers.
pub proof fn lemma_answer_alone(ids: StreamIds, frame: Frame)
    ensures
        sent(answer(ids, frame)) == match frame.command {
            MessageCommand::Write => seq![ids.ack()],
            MessageCommand::Clse => if ids.owns(frame) {
                seq![ids.close()]
            } else {
                Seq::empty()
            },
            _ => Seq::empty(),
        },
        delivered(answer(ids, frame)) == if frame.command == MessageCommand::Write {
            frame.payload
        } else {
            Seq::empty()
        },
{
    let none = Seq::<Act>::empty();
    match frame.command {
        MessageCommand::Write => {
            let first = none.push(Act::Send(ids.ack()));
            lemma_one_more_act(none, Act::Send(ids.ack()));
            lemma_one_more_act(first, Act::Deliver(frame.payload));
            assert(answer(ids, frame) == first.push(Act::Deliver(frame.payload)));
        },
        MessageCommand::Clse => {
            if ids.owns(frame) {
                lemma_one_more_act(none, Act::Send(ids.close()));
            }
        },
        _ => {},
    }
}

/// A frame that a live stream passes over: an acknowledgment, or a close
/// that is addressed to another stream.
pub open spec fn passed_over(ids: StreamIds, frame: Frame) -> bool {
    frame.command == MessageCommand::Okay || (frame.command == MessageCommand::Clse && !ids.owns(
        frame,
    ))
}

/// Every frame of the sequence is passed over.
pub open spec fn all_passed_over(ids: StreamIds, frames: Seq<Frame>) -> bool {
    forall|i: int| 0 <= i < frames.len() ==> passed_over(ids, #[trigger] frames[i])
}

/// A live stream reads frames that it passes over and does nothing else:
/// its state stays, it asks for nothing, it does not stop.
pub proof fn lemma_passed_over_is_idle(ids: StreamIds, start: Lifecycle, frames: Seq<Frame>)
    requires
        start != Lifecycle::Closed,
        all_passed_over(ids, frames),
    ensures
        run(ids, start, frames) == (Run { consumed: frames.len(), ..idle(start) }),
    decreases frames.len(),
{
    if frames.len() > 0 {
        assert(all_passed_over(ids, frames.drop_last()));
        lemma_passed_over_is_idle(ids, start, frames.drop_last());
    }
}

/// Frames of other streams are no-ops wherever they arrive: acknowledgments
/// and foreign closes that are interleaved with a stream's frames change
/// neither its state, nor what it asks its caller to do, nor whether and
/// how it stops. They are only read, as long as the stream is alive.
pub proof fn lemma_foreign_frames_change_nothing(
    ids: StreamIds,
    start: Lifecycle,
    before: Seq<Frame>,
    foreign: Seq<Frame>,
    after: Seq<Frame>,
)
    requires
        all_passed_over(ids, foreign),
    ensures
        ({
            let with = run(ids, start, before + foreign + after);
            let without = run(ids, start, before + after);
            &&& with.state == without.state
            &&& with.acts == without.acts
            &&& with.failure == without.failure
            &&& with.consumed == without.consumed + if run(ids, start, before).stopped() {
                0
            } else {
                foreign.len()
            }
        }),
{
    let head = run(ids, start, before);
    lemma_run_in_parts(ids, start, before, after);
    lemma_run_in_parts(ids, start, before, foreign);
    lemma_run_in_parts(ids, start, before + foreign, after);
    if !head.stopped() {
        lemma_passed_over_is_idle(ids, head.state, foreign);
    }
}

/// Every frame of the sequence is a data frame.
pub open spec fn all_data(frames: Seq<Frame>) -> bool {
    forall|i: int| 0 <= i < frames.len() ==> (#[trigger] frames[i]).command == MessageCommand::Write
}

/// A burst of data frames on a live stream: each is read, acknowledged and
/// delivered, in arrival order, and once one has arrived the stream is
/// open. There are as many acknowledgments as data frames, and nothing else
/// is sent.
pub proof fn lemma_data_burst(ids: StreamIds, start: Lifecycle, data: Seq<Frame>)
    requires
        start != Lifecycle::Closed,
        all_data(data),
    ensures
        run(ids, start, data) == (Run {
            state: if data.len() == 0 {
                start
            } else {
                Lifecycle::Open
            },
            consumed: data.len(),
            acts: answers(ids, data),
            failure: None,
        }),
        sent(answers(ids, data)) == Seq::new(data.len(), |i: int| ids.ack()),
        delivered(answers(ids, data)) == payloads(data),
    decreases data.len(),
{
    if data.len() > 0 {
        assert(all_data(data.drop_last()));
        lemma_data_burst(ids, start, data.drop_last());
        lemma_answer_alone(ids, data.last());
        lemma_sent_in_parts(answers(ids, data.drop_last()), answer(ids, data.last()));
        lemma_delivered_in_parts(answers(ids, data.drop_last()), answer(ids, data.last()));
    }
}

/// Data frames followed by one close of the stream, on a stream that was
/// just established: every data frame is acknowledged and delivered in
/// arrival order, and then exactly one close is sent. With no data frame
/// the close is final and the stream is closed. With at least one, the
/// close marks the end of a burst: the stream stays alive and waits for the
/// final close.
pub proof fn lemma_data_then_close(ids: StreamIds, data: Seq<Frame>, close: Frame)
    requires
        all_data(data),
        close.command == MessageCommand::Clse,
        ids.owns(close),
    ensures
        ({
            let done = run(ids, Lifecycle::AwaitingFinalClose, data.push(close));
            &&& done == (Run {
                state: if data.len() == 0 {
                    Lifecycle::Closed
                } else {
                    Lifecycle::AwaitingFinalClose
                },
                consumed: data.len() + 1,
                acts: answers(ids, data).push(Act::Send(ids.close())),
                failure: None,
            })
            &&& sent(done.acts) == Seq::new(data.len(), |i: int| ids.ack()).push(ids.close())
            &&& delivered(done.acts) == payloads(data)
        }),
{
    lemma_data_burst(ids, Lifecycle::AwaitingFinalClose, data);
    assert(data.push(close).drop_last() == data);
    let done = run(ids, Lifecycle::AwaitingFinalClose, data.push(close));
    assert(done.acts =~= answers(ids, data).push(Act::Send(ids.close())));
    assert(done.acts.drop_last() == answers(ids, data));
}

/// A close of the stream that arrives while no data has arrived since the
/// stream was established or last confirmed a close ends it: the stream
/// sends one close and is closed, and reads nothing that comes later.
pub proof fn lemma_final_close(
    ids: StreamIds,
    start: Lifecycle,
    before: Seq<Frame>,
    close: Frame,
    after: Seq<Frame>,
)
    requires
        run(ids, start, before).state == Lifecycle::AwaitingFinalClose,
        run(ids, start, before).failure is None,
        close.command == MessageCommand::Clse,
        ids.owns(close),
    ensures
        run(ids, start, before.push(close) + after) == (Run {
            state: Lifecycle::Closed,
            consumed: before.len() + 1,
            acts: run(ids, start, before).acts.push(Act::Send(ids.close())),
            failure: None,
        }),
{
    let frames = before.push(close) + after;
    lemma_run_reads_all(ids, start, before);
    assert(before.push(close).drop_last() == before);
    assert(frames.take(before.len() as int + 1) == before.push(close));
    lemma_run_rests(ids, start, frames, before.len() as int + 1);
    assert(run(ids, start, before.push(close)).acts =~= run(ids, start, before).acts.push(
        Act::Send(ids.close()),
    ));
}

/// A command outside data, acknowledgment and close breaks a live stream at
/// whatever point it arrives: the stream fails with that command, and has
/// asked for no more than it had asked for before. No frame behind it is
/// read.
pub proof fn lemma_unknown_command_breaks(
    ids: StreamIds,
    start: Lifecycle,
    before: Seq<Frame>,
    frame: Frame,
    after: Seq<Frame>,
)
    requires
        !run(ids, start, before).stopped(),
        frame.command is Other,
    ensures
        run(ids, start, before.push(frame) + after) == (Run {
            consumed: before.len() + 1,
            failure: Some(RustADBError::ADBRequestFailed(frame.command)),
            ..run(ids, start, before)
        }),
{
    let frames = before.push(frame) + after;
    lemma_run_reads_all(ids, start, before);
    assert(before.push(frame).drop_last() == before);
    assert(frames.take(before.len() as int + 1) == before.push(frame));
    lemma_run_rests(ids, start, frames, before.len() as int + 1);
}

} // verus!
