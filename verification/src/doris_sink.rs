//! The warehouse sink stage: it accepts records from the chain thread
//! and hands them over to a background load task through a bounded
//! channel.  The load task itself — batching, HTTP transport and retry
//! backoff — runs outside this library against the same channel.

use vstd::prelude::*;
use crate::checkpoint::TaskId;
use crate::doris::DorisConfigOption;
use crate::element::Record;
use crate::errors::StreamError;
use crate::handover::Handover;

verus! {

/// One live backend, as the frontend reports it.
#[derive(Clone, Debug)]
pub struct BackendRowV2 {
    pub ip: String,
    pub http_port: i32,
    pub is_alive: bool,
}

/// The backend list of one frontend.
#[derive(Clone, Debug)]
pub struct BackendV2 {
    pub backends: Vec<BackendRowV2>,
}

/// The transport-level wrapper around a backend list.
#[derive(Clone, Debug)]
pub struct BackendResp {
    pub msg: String,
    pub code: i32,
    pub data: BackendV2,
}

/// The sink stage owned by the chain thread.
#[derive(Debug)]
pub struct DorisSink {
    pub options: DorisConfigOption,
    pub task_id: TaskId,
    pub header: String,
    pub handover: Option<Handover>,
}

impl DorisSink {
    pub fn new(options: DorisConfigOption) -> (s: DorisSink)
        ensures
            s.options == options,
            s.task_id == (TaskId { task_number: 0, num_tasks: 0 }),
            s.header@.len() == 0,
            s.handover is None,
    {
        DorisSink {
            options,
            task_id: TaskId { task_number: 0, num_tasks: 0 },
            header: String::new(),
            handover: None,
        }
    }

    /// Install the bounded channel that carries records to the
    /// background load task.
    pub fn open_channel(&mut self, task_id: TaskId)
        ensures
            final(self).task_id == task_id,
            final(self).handover is Some,
            final(self).handover->0@.len() == 0,
            !final(self).handover->0.closed,
            final(self).options == old(self).options,
            final(self).header == old(self).header,
    {
        self.task_id = task_id;
        self.handover = Some(Handover::new(String::from_str("doris-sink"), 10000));
    }

    /// Accept one record from the chain: enqueue it for the background
    /// load task, or report the channel broken when it is closed, full,
    /// or was never opened.
    pub fn write_record(&mut self, record: Record) -> (r: Result<(), StreamError>)
        ensures
            final(self).options == old(self).options,
            final(self).task_id == old(self).task_id,
            old(self).handover is None ==> r == Err::<(), StreamError>(StreamError::ChannelBroken)
                && final(self).handover is None,
            old(self).handover is Some ==> ({
                let h = old(self).handover->0;
                &&& final(self).handover is Some
                &&& final(self).handover->0.capacity == h.capacity
                &&& final(self).handover->0.closed == h.closed
                &&& final(self).handover->0.name == h.name
                &&& (h.closed || !h.has_room()) ==> r == Err::<(), StreamError>(
                    StreamError::ChannelBroken,
                ) && final(self).handover->0@ == h@
                &&& (!h.closed && h.has_room()) ==> r is Ok && final(self).handover->0@ == h@.push(
                    record,
                )
            }),
    {
        match &mut self.handover {
            None => Err(StreamError::ChannelBroken),
            Some(h) => {
                match h.produce(record) {
                    Ok(()) => Ok(()),
                    Err(_) => Err(StreamError::ChannelBroken),
                }
            },
        }
    }
}

} // verus!
