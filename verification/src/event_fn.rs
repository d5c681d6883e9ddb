//! The stages that adapt broker input to the pipeline's records.
//!
//! The broker hands the runtime raw payload bytes; decoding those bytes
//! into plain values happens at the runtime's edge, outside this
//! library.  These stages take over from there: the event stage checks
//! and frames an event record, and the broadcast stage fans one control
//! record out to every downstream partition.

use vstd::prelude::*;
use crate::element::Record;
use crate::entities::{alarm_event, alarm_rule};
use crate::errors::StreamError;
use crate::functions::{Context, FlatMapFunction, FnSchema, NamedFunction};
use crate::text::{without_char, push_without_char};

verus! {

/// The event input stage: passes event records on, one for one, and
/// rejects a record that does not fit the event schema.
#[derive(Debug)]
pub struct EventFlatMapFunction {}

impl EventFlatMapFunction {
    pub fn new() -> (f: EventFlatMapFunction) {
        EventFlatMapFunction {  }
    }

    /// Check and re-frame one event record.
    pub fn flat_map0(&mut self, record: Record) -> (r: Result<Vec<Record>, StreamError>)
        ensures
            r is Ok <==> alarm_event::Entity::matches_schema(record@),
            r is Err ==> r == Err::<Vec<Record>, StreamError>(StreamError::MalformedRecord),
            r is Ok ==> r->Ok_0@.len() == 1 && r->Ok_0@[0]@ == record@,
    {
        let event = match alarm_event::Entity::parse(&record) {
            Ok(e) => e,
            Err(_) => {
                return Err(StreamError::MalformedRecord);
            },
        };
        let mut out: Vec<Record> = Vec::new();
        out.push(event.to_record());
        Ok(out)
    }
}

impl NamedFunction for EventFlatMapFunction {
    fn name(&self) -> &'static str {
        "EventFlatMapFunction"
    }
}

impl FlatMapFunction for EventFlatMapFunction {
    open spec fn inv(&self) -> bool {
        true
    }

    fn open(&mut self, _context: &Context) -> Result<(), StreamError> {
        Ok(())
    }

    fn flat_map(&mut self, record: Record) -> Result<Vec<Record>, StreamError> {
        self.flat_map0(record)
    }

    fn close(&mut self) -> Result<(), StreamError> {
        Ok(())
    }

    fn schema(&self, _input_schema: FnSchema) -> FnSchema {
        FnSchema::Single(alarm_event::schema())
    }
}

/// The control-stream broadcast stage: one copy of each rule record per
/// downstream partition.
#[derive(Debug)]
pub struct BroadcastSerdeFlatMapFunction {
    pub child_job_parallelism: u16,
}

impl BroadcastSerdeFlatMapFunction {
    pub fn new() -> (f: BroadcastSerdeFlatMapFunction)
        ensures
            f.child_job_parallelism == 0,
    {
        BroadcastSerdeFlatMapFunction { child_job_parallelism: 0 }
    }

    /// Strip a broker rule payload down to its document text: drop the
    /// outer framing quotes and remove every escape backslash.
    pub fn prepare_payload(&self, payload: &str) -> (r: Result<String, StreamError>)
        ensures
            r is Ok <==> payload@.len() >= 2,
            r is Err ==> r == Err::<String, StreamError>(StreamError::MalformedRecord),
            r is Ok ==> r->Ok_0@ == without_char(
                payload@.subrange(1, payload@.len() - 1),
                '\\',
            ),
    {
        let len = payload.unicode_len();
        if len < 2 {
            return Err(StreamError::MalformedRecord);
        }
        let inner = payload.substring_char(1, len - 1);
        let mut out = String::new();
        push_without_char(&mut out, inner, '\\');
        proof {
            assert(out@ =~= without_char(payload@.subrange(1, payload@.len() - 1), '\\'));
        }
        Ok(out)
    }

    /// Fan one rule record out to every downstream partition, tagging
    /// each copy with its partition number.
    #[verifier::loop_isolation(false)]
    pub fn flat_map0(&mut self, record: Record) -> (r: Result<Vec<Record>, StreamError>)
        ensures
            *final(self) == *old(self),
            r is Ok <==> alarm_rule::Entity::matches_schema(record@),
            r is Err ==> r == Err::<Vec<Record>, StreamError>(StreamError::MalformedRecord),
            r is Ok ==> ({
                &&& r->Ok_0@.len() == old(self).child_job_parallelism
                &&& forall|p: int|
                    0 <= p < r->Ok_0@.len() ==> (#[trigger] r->Ok_0@[p])@ == record@
                        && r->Ok_0@[p].partition_num == p
            }),
    {
        let rule = match alarm_rule::Entity::parse(&record) {
            Ok(rule) => rule,
            Err(_) => {
                return Err(StreamError::MalformedRecord);
            },
        };
        let mut out: Vec<Record> = Vec::new();
        let n = self.child_job_parallelism;
        let mut p: u16 = 0;
        while p < n
            invariant
                p <= n,
                out@.len() == p,
                forall|j: int|
                    0 <= j < p ==> (#[trigger] out@[j])@ == record@ && out@[j].partition_num == j,
            decreases n - p,
        {
            let mut copy = rule.to_record();
            copy.partition_num = p;
            out.push(copy);
            p = p + 1;
        }
        Ok(out)
    }
}

impl NamedFunction for BroadcastSerdeFlatMapFunction {
    fn name(&self) -> &'static str {
        "BroadcastSerdeFlatMapFunction"
    }
}

impl FlatMapFunction for BroadcastSerdeFlatMapFunction {
    open spec fn inv(&self) -> bool {
        true
    }

    /// Opening records how many downstream partitions the broadcast
    /// fans out to.
    fn open(&mut self, context: &Context) -> Result<(), StreamError> {
        self.child_job_parallelism = context.children_len();
        Ok(())
    }

    fn flat_map(&mut self, record: Record) -> Result<Vec<Record>, StreamError> {
        self.flat_map0(record)
    }

    fn close(&mut self) -> Result<(), StreamError> {
        Ok(())
    }

    fn schema(&self, _input_schema: FnSchema) -> FnSchema {
        FnSchema::Single(alarm_rule::schema())
    }
}

} // verus!
