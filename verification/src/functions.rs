//! The user-function contracts the core consumes: key selection, keyed
//! processing, flat mapping and two-input co-processing.  All are
//! synchronous, single-threaded-per-task calls; an error from one is
//! fatal to the task and is never caught by the chain.

use vstd::prelude::*;
use crate::buffer::Schema;
use crate::checkpoint::TaskId;
use crate::element::Record;
use crate::errors::StreamError;

verus! {

/// The schema an operator function declares for its output.
#[derive(Clone, Debug)]
pub enum FnSchema {
    Empty,
    Single(Schema),
}

/// What an operator function sees when it is opened.
#[derive(Clone, Debug)]
pub struct Context {
    pub task_id: TaskId,
    /// How many downstream partitions a broadcast stage fans out to.
    pub children: u16,
    pub input_schema: FnSchema,
}

impl Context {
    pub fn new(task_id: TaskId, children: u16, input_schema: FnSchema) -> (c: Context)
        ensures
            c.task_id == task_id,
            c.children == children,
            c.input_schema == input_schema,
    {
        Context { task_id, children, input_schema }
    }

    pub fn children_len(&self) -> (n: u16)
        ensures
            n == self.children,
    {
        self.children
    }
}

/// A function with a stable name, used to tag metrics.
pub trait NamedFunction {
    fn name(&self) -> &'static str;
}

/// Derives the partition key record from an input record.
///
/// Key selection is a pure reading of the record: the record itself is
/// handed back unchanged, and the derived key satisfies the selector's
/// own key predicate, which each implementation pins exactly.
pub trait KeySelectorFunction {
    /// Whether the selector accepts this record at all.
    spec fn accepts(&self, record: Record) -> bool;

    /// Whether `key` is the key this selector derives for `record`.
    spec fn is_key_for(&self, record: Record, key: Record) -> bool;

    fn open(&mut self, context: &Context) -> Result<(), StreamError>;

    fn get_key(&self, record: &mut Record) -> (r: Result<Record, StreamError>)
        ensures
            *final(record) == *old(record),
            r is Ok <==> self.accepts(*old(record)),
            r is Ok ==> self.is_key_for(*old(record), r->Ok_0),
        ;

    fn close(&mut self) -> Result<(), StreamError>;

    fn key_schema(&self, input_schema: FnSchema) -> FnSchema;
}

/// Processes one record under its partition key, returning at most one
/// output record.  A keyed stage also satisfies the checkpoint
/// contract: a barrier triggers a snapshot of its state.
///
/// Two observation logs pin what the chain hands the function and what
/// the function hands back: every successful call appends its
/// `(key, record)` pair to `taken` and its result to `produced`, so a
/// caller's own contract can say exactly which data went through.
pub trait KeyedProcessFunction: crate::checkpoint::CheckpointFunction {
    /// The function's own state invariant, established at construction
    /// and preserved by every call.
    spec fn inv(&self) -> bool;

    /// Every `(key, record)` pair successfully processed, in order.
    spec fn taken(&self) -> Seq<(Record, Record)>;

    /// The result of each successful call, in the same order.
    spec fn produced(&self) -> Seq<Option<Record>>;

    fn open(&mut self, context: &Context) -> (r: Result<(), StreamError>)
        requires
            old(self).inv(),
        ensures
            final(self).inv(),
            final(self).taken() == old(self).taken(),
            final(self).produced() == old(self).produced(),
        ;

    fn process(&mut self, key: Record, record: Record) -> (r: Result<
        Option<Record>,
        StreamError,
    >)
        requires
            old(self).inv(),
        ensures
            final(self).inv(),
            r is Ok ==> final(self).taken() == old(self).taken().push((key, record))
                && final(self).produced() == old(self).produced().push(r->Ok_0),
            r is Err ==> final(self).taken() == old(self).taken() && final(self).produced()
                == old(self).produced(),
        ;

    fn close(&mut self) -> (r: Result<(), StreamError>)
        requires
            old(self).inv(),
        ensures
            final(self).inv(),
            final(self).taken() == old(self).taken(),
            final(self).produced() == old(self).produced(),
        ;

    fn parallelism(&self) -> u16;

    fn schema(&self, input_schema: FnSchema) -> FnSchema;
}

/// Maps one record to zero or more output records.
pub trait FlatMapFunction {
    /// The function's own state invariant, established at construction
    /// and preserved by every call.
    spec fn inv(&self) -> bool;

    fn open(&mut self, context: &Context) -> (r: Result<(), StreamError>)
        requires
            old(self).inv(),
        ensures
            final(self).inv(),
        ;

    fn flat_map(&mut self, record: Record) -> (r: Result<Vec<Record>, StreamError>)
        requires
            old(self).inv(),
        ensures
            final(self).inv(),
        ;

    fn close(&mut self) -> (r: Result<(), StreamError>)
        requires
            old(self).inv(),
        ensures
            final(self).inv(),
        ;

    fn schema(&self, input_schema: FnSchema) -> FnSchema;
}

/// Merges a high-volume left input with a low-volume control input.
pub trait CoProcessFunction {
    /// The function's own state invariant, established at construction
    /// and preserved by every call.
    spec fn inv(&self) -> bool;

    fn open(&mut self, context: &Context) -> (r: Result<(), StreamError>)
        requires
            old(self).inv(),
        ensures
            final(self).inv(),
        ;

    fn process_left(&mut self, record: Record) -> (r: Result<Vec<Record>, StreamError>)
        requires
            old(self).inv(),
        ensures
            final(self).inv(),
        ;

    fn process_right(&mut self, stream_seq: usize, record: Record) -> (r: Result<
        Vec<Record>,
        StreamError,
    >)
        requires
            old(self).inv(),
        ensures
            final(self).inv(),
        ;

    fn close(&mut self) -> (r: Result<(), StreamError>)
        requires
            old(self).inv(),
        ensures
            final(self).inv(),
        ;

    fn schema(&self, input_schema: FnSchema) -> FnSchema;
}

} // verus!
