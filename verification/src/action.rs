//! What a stream asks its caller to do, in the order in which it is to be
//! done.

use vstd::prelude::*;

use crate::message::{append_bytes, ADBTransportMessage, Frame};

verus! {

/// One thing for the caller to do.
#[derive(Clone, Debug, PartialEq, Eq)]
pub enum Action {
    /// Send this message to the device.
    Send(ADBTransportMessage),
    /// Write these bytes to the output sink.
    Deliver(Vec<u8>),
    /// Flush the output sink.
    Flush,
}

/// What an action is, as a mathematical value.
pub ghost enum Act {
    Send(Frame),
    Deliver(Seq<u8>),
    Flush,
}

impl View for Action {
    type V = Act;

    open spec fn view(&self) -> Act {
        match self {
            Action::Send(message) => Act::Send(message@),
            Action::Deliver(bytes) => Act::Deliver(bytes@),
            Action::Flush => Act::Flush,
        }
    }
}

/// The acts that a sequence of actions stands for, in order.
pub open spec fn acts_of(actions: Seq<Action>) -> Seq<Act> {
    actions.map_values(|action: Action| action@)
}

/// The frames that the acts send, in order.
pub open spec fn sent(acts: Seq<Act>) -> Seq<Frame>
    decreases acts.len(),
{
    if acts.len() == 0 {
        Seq::empty()
    } else {
        match acts.last() {
            Act::Send(frame) => sent(acts.drop_last()).push(frame),
            _ => sent(acts.drop_last()),
        }
    }
}

/// The bytes that the acts write to the output sink, in order.
pub open spec fn delivered(acts: Seq<Act>) -> Seq<u8>
    decreases acts.len(),
{
    if acts.len() == 0 {
        Seq::empty()
    } else {
        match acts.last() {
            Act::Deliver(bytes) => delivered(acts.drop_last()) + bytes,
            _ => delivered(acts.drop_last()),
        }
    }
}

/// What one more act adds to what is sent and to what is delivered.
pub proof fn lemma_one_more_act(acts: Seq<Act>, act: Act)
    ensures
        sent(acts.push(act)) == match act {
            Act::Send(frame) => sent(acts).push(frame),
            _ => sent(acts),
        },
        delivered(acts.push(act)) == match act {
            Act::Deliver(bytes) => delivered(acts) + bytes,
            _ => delivered(acts),
        },
{
    assert(acts.push(act).drop_last() == acts);
}

/// What is sent by two runs of acts, one after the other, is what the first
/// sends and then what the second sends.
pub proof fn lemma_sent_in_parts(first: Seq<Act>, second: Seq<Act>)
    ensures
        sent(first + second) == sent(first) + sent(second),
    decreases second.len(),
{
    if second.len() > 0 {
        assert((first + second).drop_last() == first + second.drop_last());
        lemma_sent_in_parts(first, second.drop_last());
    }
}

/// What is delivered by two runs of acts, one after the other, is what the
/// first delivers and then what the second delivers.
pub proof fn lemma_delivered_in_parts(first: Seq<Act>, second: Seq<Act>)
    ensures
        delivered(first + second) == delivered(first) + delivered(second),
    decreases second.len(),
{
    if second.len() > 0 {
        assert((first + second).drop_last() == first + second.drop_last());
        lemma_delivered_in_parts(first, second.drop_last());
    }
}

/// Appends the sending of `message` to the actions.
pub(crate) fn record_send(actions: &mut Vec<Action>, message: ADBTransportMessage)
    ensures
        acts_of(final(actions)@) == acts_of(old(actions)@).push(Act::Send(message@)),
{
    actions.push(Action::Send(message));
}

/// Appends the delivery of a copy of `bytes` to the actions.
pub(crate) fn record_delivery(actions: &mut Vec<Action>, bytes: &[u8])
    ensures
        acts_of(final(actions)@) == acts_of(old(actions)@).push(Act::Deliver(bytes@)),
{
    let mut copy: Vec<u8> = Vec::new();
    append_bytes(&mut copy, bytes);
    actions.push(Action::Deliver(copy));
}

/// Appends a flush to the actions.
pub(crate) fn record_flush(actions: &mut Vec<Action>)
    ensures
        acts_of(final(actions)@) == acts_of(old(actions)@).push(Act::Flush),
{
    actions.push(Action::Flush);
}

} // verus!
