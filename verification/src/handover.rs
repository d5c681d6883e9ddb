//! The backpressure channel between the synchronous operator chain and a
//! background worker.
//!
//! `produce` enqueues and fails with `Closed` once the consumer side has
//! terminated, or with `Full` when a bounded channel is at capacity — the
//! producer must then back off.  `try_poll_next` returns immediately with
//! `Empty` when nothing is queued; a blocking receive is a retry loop
//! around it, driven by the runtime that owns the consumer task.
//!
//! The queue is first-in first-out: items leave in exactly the order they
//! were accepted, with no loss and no duplication
//! (`lemma_handover_fifo`).

use vstd::prelude::*;
use crate::element::Record;
use crate::errors::ChannelError;

verus! {

/// A bounded or unbounded first-in first-out channel of records.
#[derive(Debug)]
pub struct Handover {
    pub name: String,
    /// `None` is an unbounded channel: produce never reports `Full`.
    pub capacity: Option<usize>,
    pub queue: Vec<Record>,
    pub closed: bool,
}

impl View for Handover {
    type V = Seq<Record>;

    open spec fn view(&self) -> Seq<Record> {
        self.queue@
    }
}

impl Handover {
    /// A bounded channel with `capacity` slots.
    pub fn new(name: String, capacity: usize) -> (h: Handover)
        ensures
            h@.len() == 0,
            h.capacity == Some(capacity),
            !h.closed,
    {
        Handover { name, capacity: Some(capacity), queue: Vec::new(), closed: false }
    }

    /// An unbounded channel: a produce never stalls the chain thread.
    pub fn new_unbounded(name: String) -> (h: Handover)
        ensures
            h@.len() == 0,
            h.capacity is None,
            !h.closed,
    {
        Handover { name, capacity: None, queue: Vec::new(), closed: false }
    }

    /// Whether one more record would be accepted right now.
    pub open spec fn has_room(&self) -> bool {
        match self.capacity {
            Some(c) => self@.len() < c,
            None => true,
        }
    }

    pub fn len(&self) -> (n: usize)
        ensures
            n == self@.len(),
    {
        self.queue.len()
    }

    pub fn is_closed(&self) -> (c: bool)
        ensures
            c == self.closed,
    {
        self.closed
    }

    /// Terminate the consumer side; every later produce fails with
    /// `Closed`, which signals orderly shutdown, not a task failure.
    pub fn close(&mut self)
        ensures
            final(self)@ == old(self)@,
            final(self).closed,
            final(self).capacity == old(self).capacity,
            final(self).name == old(self).name,
    {
        self.closed = true;
    }

    /// Enqueue one record.
    pub fn produce(&mut self, record: Record) -> (r: Result<(), ChannelError>)
        ensures
            old(self).closed ==> r == Err::<(), ChannelError>(ChannelError::Closed)
                && final(self)@ == old(self)@,
            !old(self).closed && !old(self).has_room() ==> r == Err::<(), ChannelError>(
                ChannelError::Full,
            ) && final(self)@ == old(self)@,
            !old(self).closed && old(self).has_room() ==> r is Ok && final(self)@ == old(
                self,
            )@.push(record),
            final(self).closed == old(self).closed,
            final(self).capacity == old(self).capacity,
            final(self).name == old(self).name,
    {
        if self.closed {
            return Err(ChannelError::Closed);
        }
        match self.capacity {
            Some(c) => {
                if self.queue.len() >= c {
                    return Err(ChannelError::Full);
                }
            },
            None => {},
        }
        self.queue.push(record);
        Ok(())
    }

    /// Dequeue the oldest record, without blocking.
    pub fn try_poll_next(&mut self) -> (r: Result<Record, ChannelError>)
        ensures
            old(self)@.len() > 0 ==> r == Ok::<Record, ChannelError>(old(self)@[0])
                && final(self)@ == old(self)@.drop_first(),
            old(self)@.len() == 0 ==> final(self)@ == old(self)@ && r == Err::<
                Record,
                ChannelError,
            >(if old(self).closed {
                ChannelError::Closed
            } else {
                ChannelError::Empty
            }),
            final(self).closed == old(self).closed,
            final(self).capacity == old(self).capacity,
            final(self).name == old(self).name,
    {
        if self.queue.len() == 0 {
            if self.closed {
                Err(ChannelError::Closed)
            } else {
                Err(ChannelError::Empty)
            }
        } else {
            let record = self.queue.remove(0);
            proof {
                assert(self.queue@ =~= old(self)@.drop_first());
            }
            Ok(record)
        }
    }

    /// Dequeue the oldest record; the blocking variant of the receive is
    /// a backoff loop around this, run by the task that owns the
    /// consumer side.
    pub fn poll_next(&mut self) -> (r: Result<Record, ChannelError>)
        ensures
            old(self)@.len() > 0 ==> r == Ok::<Record, ChannelError>(old(self)@[0])
                && final(self)@ == old(self)@.drop_first(),
            old(self)@.len() == 0 ==> final(self)@ == old(self)@ && r == Err::<
                Record,
                ChannelError,
            >(if old(self).closed {
                ChannelError::Closed
            } else {
                ChannelError::Empty
            }),
            final(self).closed == old(self).closed,
            final(self).capacity == old(self).capacity,
            final(self).name == old(self).name,
    {
        self.try_poll_next()
    }
}

/// One step of a producer/consumer session against the channel.
pub enum ChannelOp {
    Produce(Record),
    Poll,
}

/// A session against a bounded channel of capacity `cap`, folded over a
/// sequence of steps: the pending queue, the delivered records, and the
/// accepted records, in order.
pub open spec fn session(cap: nat, ops: Seq<ChannelOp>) -> (Seq<Record>, Seq<Record>, Seq<Record>)
    decreases ops.len(),
{
    if ops.len() == 0 {
        (Seq::empty(), Seq::empty(), Seq::empty())
    } else {
        let (queue, delivered, accepted) = session(cap, ops.drop_last());
        match ops.last() {
            ChannelOp::Produce(record) => {
                if queue.len() < cap {
                    (queue.push(record), delivered, accepted.push(record))
                } else {
                    (queue, delivered, accepted)
                }
            },
            ChannelOp::Poll => {
                if queue.len() > 0 {
                    (queue.drop_first(), delivered.push(queue[0]), accepted)
                } else {
                    (queue, delivered, accepted)
                }
            },
        }
    }
}

/// The channel neither loses, duplicates nor reorders: after any
/// interleaving of produces and polls against a bounded channel, the
/// delivered records followed by the still-pending ones are exactly the
/// accepted records, first-in first-out.  In particular, once every
/// accepted record has been polled, the consumer has received exactly
/// the produced records, in production order.
pub proof fn lemma_handover_fifo(cap: nat, ops: Seq<ChannelOp>)
    ensures
        session(cap, ops).1 + session(cap, ops).0 == session(cap, ops).2,
    decreases ops.len(),
{
    if ops.len() > 0 {
        lemma_handover_fifo(cap, ops.drop_last());
        let (queue, delivered, accepted) = session(cap, ops.drop_last());
        match ops.last() {
            ChannelOp::Produce(record) => {
                if queue.len() < cap {
                    assert(delivered + queue.push(record) =~= (delivered + queue).push(record));
                }
            },
            ChannelOp::Poll => {
                if queue.len() > 0 {
                    assert(delivered.push(queue[0]) + queue.drop_first() =~= delivered + queue);
                }
            },
        }
    }
}

} // verus!
