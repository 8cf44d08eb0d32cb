//! The queue in front of a session's PTY writer.
//!
//! All writes to a session's PTY master, keyboard input and parser-generated
//! responses alike, go through one bounded queue that a dedicated thread drains.
//! One queue preserves their relative order. When the child stops reading and the
//! queue fills, further writes are dropped rather than blocking whoever enqueues.

use std::collections::VecDeque;
use vstd::prelude::*;

verus! {

/// Maximum number of queued write messages before new writes are dropped.
pub const WRITE_QUEUE_CAP: usize = 1024;

/// How long to wait before offering a response to a full queue again, in
/// milliseconds.
pub const BACKPRESSURE_POLL_MILLIS: u64 = 2;

/// Routes PTY writes to a dedicated blocking writer thread.
#[derive(Debug)]
pub struct PtyWriter {
    queue: VecDeque<Vec<u8>>,
    closed: bool,
}

/// What became of a write.
#[derive(Debug, Clone, Copy, PartialEq, Eq, Structural)]
pub enum SendOutcome {
    /// There was nothing to write.
    Empty,
    Queued,
    /// The queue is full: the write is dropped.
    Dropped,
    /// The writer has exited: the write is dropped silently.
    Closed,
}

/// What became of a write that waits for room.
#[derive(Debug, PartialEq, Eq)]
pub enum Backpressure {
    /// It is over: whether the data was taken.
    Done(bool),
    /// The queue is full and there is time left: offer the data again.
    Retry(Vec<u8>),
}

/// What becomes of a write of so many bytes.
pub open spec fn send_outcome(length: nat, closed: bool, queued: nat) -> SendOutcome {
    if length == 0 {
        SendOutcome::Empty
    } else if closed {
        SendOutcome::Closed
    } else if queued >= WRITE_QUEUE_CAP {
        SendOutcome::Dropped
    } else {
        SendOutcome::Queued
    }
}

/// What becomes of a response that waits for room.
pub open spec fn offer_outcome(data: Vec<u8>, closed: bool, queued: nat, expired: bool) -> Backpressure {
    match send_outcome(data@.len(), closed, queued) {
        SendOutcome::Empty => Backpressure::Done(true),
        SendOutcome::Queued => Backpressure::Done(true),
        SendOutcome::Closed => Backpressure::Done(false),
        SendOutcome::Dropped => if expired {
            Backpressure::Done(false)
        } else {
            Backpressure::Retry(data)
        },
    }
}

/// A write is taken exactly if there is something to write, the writer runs and fewer than
/// 1024 messages wait. A write to a full queue is dropped; a response is offered again, the
/// same one, until its time is over, and is never given up while there is room.
pub proof fn law_writes_are_taken_while_there_is_room(
    data: Vec<u8>,
    closed: bool,
    queued: nat,
    expired: bool,
)
    ensures
        send_outcome(data@.len(), closed, queued) == SendOutcome::Queued <==> data@.len() > 0
            && !closed && queued < 1024,
        send_outcome(data@.len(), closed, queued) == SendOutcome::Dropped <==> data@.len() > 0
            && !closed && queued >= 1024,
        send_outcome(data@.len(), closed, queued) == SendOutcome::Closed <==> data@.len() > 0
            && closed,
        send_outcome(data@.len(), closed, queued) == SendOutcome::Empty <==> data@.len() == 0,
        offer_outcome(data, closed, queued, expired) == Backpressure::Done(true) <==> data@.len()
            == 0 || !closed && queued < 1024,
        offer_outcome(data, closed, queued, expired) == Backpressure::Retry(data) <==> data@.len()
            > 0 && !closed && queued >= 1024 && !expired,
        offer_outcome(data, closed, queued, expired) == Backpressure::Done(false) <==> data@.len()
            > 0 && (closed || queued >= 1024 && expired),
{
}

impl PtyWriter {
    /// The queued messages, oldest first.
    pub closed spec fn queued(&self) -> Seq<Vec<u8>> {
        self.queue@
    }

    /// Whether the writer has exited.
    pub closed spec fn is_closed(&self) -> bool {
        self.closed
    }

    /// The queue never holds more than its capacity, and no empty message.
    pub open spec fn wf(&self) -> bool {
        &&& self.queued().len() <= WRITE_QUEUE_CAP
        &&& forall|i: int| 0 <= i < self.queued().len() ==> (#[trigger] self.queued()[i])@.len() > 0
    }

    /// An empty queue with a running writer.
    pub fn new() -> (writer: PtyWriter)
        ensures
            writer.wf(),
            writer.queued() == Seq::<Vec<u8>>::empty(),
            !writer.is_closed(),
    {
        PtyWriter { queue: VecDeque::new(), closed: false }
    }

    /// Enqueue bytes to be written to the PTY. Never blocks: if the queue is full
    /// (child not draining), the write is dropped.
    pub fn send(&mut self, data: &[u8]) -> (outcome: SendOutcome)
        requires
            old(self).wf(),
        ensures
            final(self).wf(),
            final(self).is_closed() == old(self).is_closed(),
            outcome == send_outcome(
                data@.len(),
                old(self).is_closed(),
                old(self).queued().len(),
            ),
            outcome != SendOutcome::Queued ==> final(self).queued() == old(self).queued(),
            outcome == SendOutcome::Queued ==> {
                &&& final(self).queued().len() == old(self).queued().len() + 1
                &&& final(self).queued().drop_last() == old(self).queued()
                &&& final(self).queued().last()@ == data@
            },
    {
        if data.len() == 0 {
            return SendOutcome::Empty;
        }
        if self.closed {
            return SendOutcome::Closed;
        }
        if self.queue.len() >= WRITE_QUEUE_CAP {
            return SendOutcome::Dropped;
        }
        let ghost before = self.queue@;
        let message = vstd::slice::slice_to_vec(data);
        self.queue.push_back(message);
        proof {
            assert(self.queue@.drop_last() =~= before);
        }
        SendOutcome::Queued
    }

    /// Offer an owned response without dropping it when the bounded queue is
    /// temporarily full. `expired` says that the deadline has passed, which keeps a
    /// child that has stopped reading from wedging session shutdown forever.
    pub fn send_with_backpressure(&mut self, data: Vec<u8>, expired: bool) -> (outcome: Backpressure)
        requires
            old(self).wf(),
        ensures
            final(self).wf(),
            final(self).is_closed() == old(self).is_closed(),
            outcome == offer_outcome(
                data,
                old(self).is_closed(),
                old(self).queued().len(),
                expired,
            ),
            final(self).queued() == (if send_outcome(
                data@.len(),
                old(self).is_closed(),
                old(self).queued().len(),
            ) == SendOutcome::Queued {
                old(self).queued().push(data)
            } else {
                old(self).queued()
            }),
    {
        if data.len() == 0 {
            return Backpressure::Done(true);
        }
        if self.closed {
            return Backpressure::Done(false);
        }
        if self.queue.len() < WRITE_QUEUE_CAP {
            self.queue.push_back(data);
            return Backpressure::Done(true);
        }
        if expired {
            Backpressure::Done(false)
        } else {
            Backpressure::Retry(data)
        }
    }

    /// The next message for the writer thread: the oldest.
    pub fn next(&mut self) -> (message: Option<Vec<u8>>)
        requires
            old(self).wf(),
        ensures
            final(self).wf(),
            final(self).is_closed() == old(self).is_closed(),
            match message {
                Some(message) => {
                    &&& old(self).queued().len() > 0
                    &&& message == old(self).queued()[0]
                    &&& final(self).queued() == old(self).queued().drop_first()
                },
                None => old(self).queued().len() == 0 && final(self).queued()
                    == old(self).queued(),
            },
    {
        let ghost before = self.queue@;
        let message = self.queue.pop_front();
        proof {
            if before.len() > 0 {
                assert(self.queue@ =~= before.drop_first());
                assert forall|i: int| 0 <= i < self.queue@.len() implies (
                #[trigger] self.queue@[i])@.len() > 0 by {
                    assert(before[i + 1]@.len() > 0);
                }
            }
        }
        message
    }

    /// The writer has exited: nothing more is taken.
    pub fn close(&mut self)
        requires
            old(self).wf(),
        ensures
            final(self).wf(),
            final(self).is_closed(),
            final(self).queued() == old(self).queued(),
    {
        self.closed = true;
    }
}

} // verus!
