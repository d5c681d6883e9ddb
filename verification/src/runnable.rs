//! The operator execution chain: a linked sequence of per-task stages
//! driven push-style by the source thread, and the checkpoint-barrier
//! protocol each stage satisfies.
//!
//! A record flows to the stage's processing function under its derived
//! key, and the function's output — zero or one record — continues the
//! chain downstream.  A barrier first triggers a snapshot of the
//! stage's state and is then forwarded unchanged; any other element
//! passes through untouched.  Barriers must arrive in strictly
//! increasing checkpoint-id order: a repeated or decreasing id is a
//! protocol violation and is rejected
//! (`lemma_barrier_ordering` states the resulting guarantee).
//!
//! Every stage keeps a ghost log of the elements it accepted, so the
//! contracts upstream can say exactly what reached downstream.

use vstd::prelude::*;
use crate::checkpoint::{handle_token, is_numeric_token, token_value, Checkpoint,
    CheckpointHandle, FunctionSnapshotContext, KeyedProcessCheckpointHandle, OperatorId, TaskId};
use crate::element::{Element, Record};
use crate::errors::StreamError;
use crate::functions::{Context, FnSchema, KeySelectorFunction, KeyedProcessFunction,
    NamedFunction};
use crate::metrics::{register_counter, Counter, Tag};
use crate::text::{render_u64, u64_digits};

verus! {

/// How many completed checkpoints the submission outbox retains before
/// submission becomes best-effort and skips.
pub const CHECKPOINT_OUTBOX_SLOTS: usize = 1024;

/// What a runnable sees when the chain is opened.
#[derive(Clone, Copy, Debug, PartialEq, Eq, Structural)]
pub struct RunnableContext {
    pub task_id: TaskId,
    pub children: u16,
}

impl RunnableContext {
    pub fn new(task_id: TaskId, children: u16) -> (c: RunnableContext)
        ensures
            c.task_id == task_id,
            c.children == children,
    {
        RunnableContext { task_id, children }
    }

    /// The context handed to the wrapped operator function.
    pub fn to_fun_context(&self, _operator_id: OperatorId) -> (c: Context)
        ensures
            c.task_id == self.task_id,
            c.children == self.children,
    {
        Context::new(self.task_id, self.children, FnSchema::Empty)
    }

    /// The context handed to the wrapped function when a barrier
    /// triggers a snapshot.
    pub fn checkpoint_context(&self, operator_id: OperatorId, checkpoint_id: u64) -> (c:
        FunctionSnapshotContext)
        ensures
            c.operator_id == operator_id,
            c.task_id == self.task_id,
            c.checkpoint_id == checkpoint_id,
    {
        FunctionSnapshotContext { operator_id, task_id: self.task_id, checkpoint_id }
    }
}

/// One stage of the push-based operator chain.
///
/// The elements a stage has accepted stand in its `received` log: a
/// successful `run` appends exactly the element it was handed, a failed
/// one appends nothing, so an upstream stage can state precisely what
/// it passed on.
pub trait Runnable {
    /// The stage's own state invariant, established when the chain is
    /// assembled and preserved by every call.
    spec fn inv(&self) -> bool;

    /// Every element this stage has accepted, in arrival order.
    spec fn received(&self) -> Seq<Element>;

    /// Whether this stage (and everything downstream of it) was opened.
    spec fn opened(&self) -> bool;

    /// Whether this stage (and everything downstream of it) was closed.
    spec fn closed(&self) -> bool;

    fn open(&mut self, context: &RunnableContext) -> (r: Result<(), StreamError>)
        requires
            old(self).inv(),
        ensures
            final(self).inv(),
            final(self).received() == old(self).received(),
            r is Ok ==> final(self).opened(),
        ;

    fn run(&mut self, element: Element) -> (r: Result<(), StreamError>)
        requires
            old(self).inv(),
        ensures
            final(self).inv(),
            r is Ok ==> final(self).received() == old(self).received().push(element),
            r is Err ==> final(self).received() == old(self).received(),
        ;

    fn close(&mut self) -> (r: Result<(), StreamError>)
        requires
            old(self).inv(),
        ensures
            final(self).inv(),
            final(self).received() == old(self).received(),
            r is Ok ==> final(self).closed(),
        ;
}

/// The terminal stage standing for downstream: it accepts and retains
/// every element handed to it.
#[derive(Debug)]
pub struct SinkCollectRunnable {
    pub collected: Vec<Element>,
    pub opened: bool,
    pub shut: bool,
}

impl SinkCollectRunnable {
    pub fn new() -> (s: SinkCollectRunnable)
        ensures
            s.collected@.len() == 0,
            !s.opened,
            !s.shut,
    {
        SinkCollectRunnable { collected: Vec::new(), opened: false, shut: false }
    }

    /// Accept one element; nothing is ever dropped or reordered.
    pub fn accept(&mut self, element: Element) -> (r: Result<(), StreamError>)
        ensures
            final(self).collected@ == old(self).collected@.push(element),
            final(self).opened == old(self).opened,
            final(self).shut == old(self).shut,
            r is Ok,
    {
        self.collected.push(element);
        Ok(())
    }
}

impl Runnable for SinkCollectRunnable {
    open spec fn inv(&self) -> bool {
        true
    }

    open spec fn received(&self) -> Seq<Element> {
        self.collected@
    }

    open spec fn opened(&self) -> bool {
        self.opened
    }

    open spec fn closed(&self) -> bool {
        self.shut
    }

    fn open(&mut self, _context: &RunnableContext) -> Result<(), StreamError> {
        self.opened = true;
        Ok(())
    }

    fn run(&mut self, element: Element) -> Result<(), StreamError> {
        self.accept(element)
    }

    fn close(&mut self) -> Result<(), StreamError> {
        self.shut = true;
        Ok(())
    }
}

/// The completed checkpoint id a handle token denotes: the embedded
/// decimal id of a numeric token, and nothing for an empty token, a
/// legacy list-shaped token, the null token, or anything malformed.
pub open spec fn derived_completed(s: Seq<char>) -> Option<u64> {
    if s.len() == 0 || s[0] == '[' || s == handle_token(None) {
        None
    } else if is_numeric_token(s) && token_value(s) <= u64::MAX {
        Some(token_value(s) as u64)
    } else {
        None
    }
}

/// Derive the completed checkpoint id from a snapshot handle.  The
/// handle is self-describing and wins over any externally tracked
/// counter; a token that decodes to nothing yields no completed id.
pub fn derive_completed(handle: &CheckpointHandle) -> (r: Option<u64>)
    ensures
        r == derived_completed(handle.handle@),
{
    match KeyedProcessCheckpointHandle::decode(handle.handle.as_str()) {
        Ok(decoded) => decoded.completed_checkpoint_id,
        Err(_) => None,
    }
}

/// The keyed processing stage of the chain: an optional key selector,
/// the keyed function, and the next stage downstream.
pub struct KeyedProcessRunnable<SK, PF, N> {
    pub operator_id: OperatorId,
    pub task_id: TaskId,
    pub context: Option<RunnableContext>,
    pub stream_key_by: Option<SK>,
    pub stream_keyed_process: PF,
    pub next_runnable: Option<N>,
    pub counter: Counter,
    /// The highest checkpoint id accepted so far, if any.
    pub last_checkpoint_id: Option<u64>,
    /// Completed checkpoints awaiting submission; when full, submission
    /// is skipped for this barrier — best-effort, never fatal.
    pub checkpoint_outbox: Vec<Checkpoint>,
    /// Every element this stage accepted, in arrival order.
    pub received_log: Ghost<Seq<Element>>,
    pub opened: bool,
    pub shut: bool,
}

impl<
    SK: KeySelectorFunction,
    PF: KeyedProcessFunction + NamedFunction,
    N: Runnable,
> KeyedProcessRunnable<SK, PF, N> {
    pub fn new(
        operator_id: OperatorId,
        stream_key_by: Option<SK>,
        stream_keyed_process: PF,
        next_runnable: Option<N>,
    ) -> (r: KeyedProcessRunnable<SK, PF, N>)
        ensures
            r.operator_id == operator_id,
            r.task_id == (TaskId { task_number: 0, num_tasks: 0 }),
            r.context is None,
            r.stream_key_by == stream_key_by,
            r.stream_keyed_process == stream_keyed_process,
            r.next_runnable == next_runnable,
            r.counter.value == 0,
            r.last_checkpoint_id is None,
            r.checkpoint_outbox@.len() == 0,
            r.received_log@.len() == 0,
            !r.opened,
            !r.shut,
    {
        KeyedProcessRunnable {
            operator_id,
            task_id: TaskId { task_number: 0, num_tasks: 0 },
            context: None,
            stream_key_by,
            stream_keyed_process,
            next_runnable,
            counter: Counter::zero(),
            last_checkpoint_id: None,
            checkpoint_outbox: Vec::new(),
            received_log: Ghost(Seq::empty()),
            opened: false,
            shut: false,
        }
    }

    /// Well-formed for running: the wrapped function's invariant holds
    /// and a downstream stage is attached and sound.
    pub open spec fn wf(&self) -> bool {
        &&& self.stream_keyed_process.inv()
        &&& self.next_runnable is Some
        &&& self.next_runnable->0.inv()
    }

    /// Open downstream first — readiness flows from the sink back — then
    /// the wrapped functions, and register the stage's throughput
    /// counter, named after the wrapped function and tagged by task.
    pub fn open_chain(&mut self, context: &RunnableContext) -> (r: Result<(), StreamError>)
        requires
            old(self).stream_keyed_process.inv(),
            old(self).next_runnable is Some,
            old(self).next_runnable->0.inv(),
        ensures
            final(self).stream_keyed_process.inv(),
            final(self).next_runnable is Some,
            final(self).next_runnable->0.inv(),
            final(self).received_log == old(self).received_log,
            final(self).next_runnable->0.received() == old(self).next_runnable->0.received(),
            r is Ok ==> ({
                &&& final(self).wf()
                &&& final(self).context == Some(*context)
                &&& final(self).task_id == context.task_id
                &&& final(self).opened
                &&& final(self).next_runnable->0.opened()
                &&& final(self).counter.value == 0
                &&& final(self).counter.name@.take("KeyedReduce_"@.len() as int)
                    == "KeyedReduce_"@
                &&& final(self).counter.tags@.len() == 1
                &&& final(self).counter.tags@[0].name@ == "task_number"@
                &&& final(self).counter.tags@[0].value@ == u64_digits(
                    context.task_id.task_number as nat,
                )
            }),
    {
        match &mut self.next_runnable {
            Some(next) => {
                let opened = next.open(context);
                if opened.is_err() {
                    self.context = Some(*context);
                    self.task_id = context.task_id;
                    return opened;
                }
            },
            None => {
                return Err(StreamError::ChannelBroken);
            },
        }
        self.task_id = context.task_id;
        self.context = Some(*context);
        let fun_context = context.to_fun_context(self.operator_id);
        let opened = self.stream_keyed_process.open(&fun_context);
        if opened.is_err() {
            return opened;
        }
        match &mut self.stream_key_by {
            Some(key_by) => {
                let opened_keys = key_by.open(&fun_context);
                if opened_keys.is_err() {
                    return opened_keys;
                }
            },
            None => {},
        }
        let mut counter_name = String::from_str("KeyedReduce_");
        counter_name.append(self.stream_keyed_process.name());
        proof {
            assert(counter_name@.take("KeyedReduce_"@.len() as int) =~= "KeyedReduce_"@);
        }
        let mut tags: Vec<Tag> = Vec::new();
        tags.push(Tag::new(String::from_str("task_number"), render_u64(
            context.task_id.task_number as u64,
        )));
        self.counter = register_counter(counter_name, tags);
        self.opened = true;
        Ok(())
    }

    /// Snapshot the wrapped function's state for one barrier and queue
    /// the completed checkpoint for submission.  The queued handle is
    /// the one the snapshot returned — or the empty placeholder when it
    /// declined — and the submitted record's completed id is derived
    /// from that handle's embedded value: the handle wins over any
    /// external counter.  A full outbox skips submission: best-effort,
    /// never fatal.
    pub fn checkpoint(&mut self, snapshot_context: FunctionSnapshotContext)
        requires
            old(self).stream_keyed_process.inv(),
        ensures
            final(self).stream_keyed_process.inv(),
            final(self).stream_keyed_process == old(self).stream_keyed_process,
            final(self).last_checkpoint_id == old(self).last_checkpoint_id,
            final(self).counter == old(self).counter,
            final(self).next_runnable == old(self).next_runnable,
            final(self).context == old(self).context,
            final(self).stream_key_by == old(self).stream_key_by,
            final(self).operator_id == old(self).operator_id,
            final(self).task_id == old(self).task_id,
            final(self).received_log == old(self).received_log,
            final(self).opened == old(self).opened,
            final(self).shut == old(self).shut,
            old(self).checkpoint_outbox@.len() >= CHECKPOINT_OUTBOX_SLOTS ==> final(self).checkpoint_outbox@ == old(self).checkpoint_outbox@,
            old(self).checkpoint_outbox@.len() < CHECKPOINT_OUTBOX_SLOTS ==> ({
                let outbox = final(self).checkpoint_outbox@;
                &&& outbox.len() == old(self).checkpoint_outbox@.len() + 1
                &&& outbox.drop_last() == old(self).checkpoint_outbox@
                &&& outbox.last().operator_id == snapshot_context.operator_id
                &&& outbox.last().task_id == snapshot_context.task_id
                &&& outbox.last().checkpoint_id == snapshot_context.checkpoint_id
                &&& outbox.last().completed_checkpoint_id == derived_completed(
                    outbox.last().handle.handle@,
                )
                &&& ({
                    ||| old(self).stream_keyed_process.is_snapshot(
                        snapshot_context,
                        Some(outbox.last().handle),
                    )
                    ||| (old(self).stream_keyed_process.is_snapshot(snapshot_context, None)
                        && outbox.last().handle.handle@.len() == 0)
                })
            }),
    {
        let handle = match self.stream_keyed_process.snapshot_state(&snapshot_context) {
            Some(handle) => handle,
            None => CheckpointHandle { handle: String::new() },
        };
        let completed = derive_completed(&handle);
        if self.checkpoint_outbox.len() < CHECKPOINT_OUTBOX_SLOTS {
            let submission = Checkpoint {
                operator_id: snapshot_context.operator_id,
                task_id: snapshot_context.task_id,
                checkpoint_id: snapshot_context.checkpoint_id,
                completed_checkpoint_id: completed,
                handle,
            };
            self.checkpoint_outbox.push(submission);
            proof {
                assert(self.checkpoint_outbox@.drop_last() =~= old(self).checkpoint_outbox@);
            }
        }
    }

    /// Dispatch one element.
    ///
    /// A record flows to the keyed function under its derived key, the
    /// function's output continues the chain downstream, and the
    /// throughput counter is bumped.  A barrier with a strictly
    /// increasing id triggers a snapshot and is then forwarded
    /// unchanged; one that repeats or decreases is rejected as a
    /// protocol violation.  Anything else passes through untouched.
    pub fn run_element(&mut self, element: Element) -> (r: Result<(), StreamError>)
        requires
            old(self).wf(),
        ensures
            final(self).wf(),
            final(self).operator_id == old(self).operator_id,
            final(self).task_id == old(self).task_id,
            final(self).opened == old(self).opened,
            final(self).shut == old(self).shut,
            r is Ok ==> final(self).received_log@ == old(self).received_log@.push(element),
            r is Err ==> final(self).received_log@ == old(self).received_log@,
            element is Record ==> final(self).last_checkpoint_id == old(self).last_checkpoint_id
                && final(self).checkpoint_outbox@ == old(self).checkpoint_outbox@,
            element is Record && r is Ok ==> ({
                let taken1 = final(self).stream_keyed_process.taken();
                let produced1 = final(self).stream_keyed_process.produced();
                &&& final(self).counter.value == if old(self).counter.value + 1 <= u64::MAX {
                    (old(self).counter.value + 1) as u64
                } else {
                    u64::MAX
                }
                &&& taken1.len() == old(self).stream_keyed_process.taken().len() + 1
                &&& taken1.drop_last() == old(self).stream_keyed_process.taken()
                &&& taken1.last().1 == element->Record_0
                &&& (old(self).stream_key_by is Some ==> old(
                    self,
                ).stream_key_by->0.is_key_for(element->Record_0, taken1.last().0))
                &&& (old(self).stream_key_by is None ==> taken1.last().0@.len() == 0)
                &&& produced1.len() == old(self).stream_keyed_process.produced().len() + 1
                &&& produced1.drop_last() == old(self).stream_keyed_process.produced()
                &&& (produced1.last() is Some ==> final(self).next_runnable->0.received() == old(
                    self,
                ).next_runnable->0.received().push(Element::Record(produced1.last()->0)))
                &&& (produced1.last() is None ==> final(self).next_runnable->0.received() == old(
                    self,
                ).next_runnable->0.received())
            }),
            element is Barrier ==> ({
                let id = element->Barrier_0.checkpoint_id;
                let violation = old(self).last_checkpoint_id is Some && id <= old(self).last_checkpoint_id->0;
                &&& final(self).counter == old(self).counter
                &&& final(self).stream_keyed_process == old(self).stream_keyed_process
                &&& violation ==> r == Err::<(), StreamError>(StreamError::BarrierOutOfOrder)
                    && final(self).last_checkpoint_id == old(self).last_checkpoint_id && final(self).checkpoint_outbox@ == old(self).checkpoint_outbox@
                    && final(self).next_runnable->0.received() == old(
                    self,
                ).next_runnable->0.received()
                &&& !violation ==> {
                    &&& final(self).last_checkpoint_id == Some(id)
                    &&& (r is Ok ==> final(self).next_runnable->0.received() == old(
                        self,
                    ).next_runnable->0.received().push(element))
                    &&& (r is Err ==> final(self).next_runnable->0.received() == old(
                        self,
                    ).next_runnable->0.received())
                    &&& old(self).checkpoint_outbox@.len() < CHECKPOINT_OUTBOX_SLOTS ==> ({
                        let outbox = final(self).checkpoint_outbox@;
                        &&& outbox.len() == old(self).checkpoint_outbox@.len() + 1
                        &&& outbox.drop_last() == old(self).checkpoint_outbox@
                        &&& outbox.last().operator_id == old(self).operator_id
                        &&& outbox.last().task_id == old(self).task_id
                        &&& outbox.last().checkpoint_id == id
                        &&& outbox.last().completed_checkpoint_id == derived_completed(
                            outbox.last().handle.handle@,
                        )
                        &&& ({
                            let snapshot_context = FunctionSnapshotContext {
                                operator_id: old(self).operator_id,
                                task_id: old(self).task_id,
                                checkpoint_id: id,
                            };
                            ||| old(self).stream_keyed_process.is_snapshot(
                                snapshot_context,
                                Some(outbox.last().handle),
                            )
                            ||| (old(self).stream_keyed_process.is_snapshot(
                                snapshot_context,
                                None,
                            ) && outbox.last().handle.handle@.len() == 0)
                        })
                    })
                    &&& old(self).checkpoint_outbox@.len() >= CHECKPOINT_OUTBOX_SLOTS ==> final(self).checkpoint_outbox@ == old(self).checkpoint_outbox@
                }
            }),
            !(element is Record) && !(element is Barrier) ==> ({
                &&& final(self).last_checkpoint_id == old(self).last_checkpoint_id
                &&& final(self).checkpoint_outbox@ == old(self).checkpoint_outbox@
                &&& final(self).counter == old(self).counter
                &&& final(self).stream_keyed_process == old(self).stream_keyed_process
                &&& (r is Ok ==> final(self).next_runnable->0.received() == old(
                    self,
                ).next_runnable->0.received().push(element))
                &&& (r is Err ==> final(self).next_runnable->0.received() == old(
                    self,
                ).next_runnable->0.received())
            }),
    {
        let ghost entered = element;
        match element {
            Element::Record(mut record) => {
                let key = match &self.stream_key_by {
                    Some(key_by) => {
                        match key_by.get_key(&mut record) {
                            Ok(key) => key,
                            Err(e) => {
                                return Err(e);
                            },
                        }
                    },
                    None => Record::with_capacity(0),
                };
                match self.stream_keyed_process.process(key, record) {
                    Ok(output) => {
                        proof {
                            assert(self.stream_keyed_process.taken().drop_last()
                                =~= old(self).stream_keyed_process.taken());
                            assert(self.stream_keyed_process.produced().drop_last()
                                =~= old(self).stream_keyed_process.produced());
                        }
                        match output {
                            Some(out) => {
                                match &mut self.next_runnable {
                                    Some(next) => {
                                        let forwarded = next.run(Element::Record(out));
                                        if forwarded.is_err() {
                                            return forwarded;
                                        }
                                    },
                                    None => {
                                        return Err(StreamError::ChannelBroken);
                                    },
                                }
                            },
                            None => {},
                        }
                    },
                    Err(e) => {
                        return Err(e);
                    },
                }
                self.counter.fetch_add(1);
                proof {
                    self.received_log@ = self.received_log@.push(entered);
                }
                Ok(())
            },
            Element::Barrier(barrier) => {
                let checkpoint_id = barrier.checkpoint_id;
                match self.last_checkpoint_id {
                    Some(last) => {
                        if checkpoint_id <= last {
                            return Err(StreamError::BarrierOutOfOrder);
                        }
                    },
                    None => {},
                }
                self.last_checkpoint_id = Some(checkpoint_id);
                let snapshot_context = FunctionSnapshotContext {
                    operator_id: self.operator_id,
                    task_id: self.task_id,
                    checkpoint_id,
                };
                self.checkpoint(snapshot_context);
                let forwarded = match &mut self.next_runnable {
                    Some(next) => next.run(Element::Barrier(barrier)),
                    None => {
                        return Err(StreamError::ChannelBroken);
                    },
                };
                if forwarded.is_ok() {
                    proof {
                        self.received_log@ = self.received_log@.push(entered);
                    }
                }
                forwarded
            },
            other => {
                let forwarded = match &mut self.next_runnable {
                    Some(next) => next.run(other),
                    None => {
                        return Err(StreamError::ChannelBroken);
                    },
                };
                if forwarded.is_ok() {
                    proof {
                        self.received_log@ = self.received_log@.push(entered);
                    }
                }
                forwarded
            },
        }
    }

    /// Close the wrapped functions first — the key selector, then the
    /// keyed function — and only then downstream, so each function sees
    /// close before downstream stops accepting; the first error is
    /// propagated and ends the pass.
    pub fn close_chain(&mut self) -> (r: Result<(), StreamError>)
        requires
            old(self).wf(),
        ensures
            final(self).wf(),
            final(self).received_log == old(self).received_log,
            r is Ok ==> final(self).shut && final(self).next_runnable->0.closed(),
            r is Err ==> final(self).shut == old(self).shut,
    {
        match &mut self.stream_key_by {
            Some(key_by) => {
                let closed = key_by.close();
                if closed.is_err() {
                    return closed;
                }
            },
            None => {},
        }
        let closed = self.stream_keyed_process.close();
        if closed.is_err() {
            return closed;
        }
        let closed_next = match &mut self.next_runnable {
            Some(next) => next.close(),
            None => {
                return Err(StreamError::ChannelBroken);
            },
        };
        if closed_next.is_ok() {
            self.shut = true;
        }
        closed_next
    }

    /// Take the completed checkpoints queued for submission.
    pub fn drain_checkpoints(&mut self) -> (r: Vec<Checkpoint>)
        ensures
            r@ == old(self).checkpoint_outbox@,
            final(self).checkpoint_outbox@.len() == 0,
            final(self).operator_id == old(self).operator_id,
            final(self).task_id == old(self).task_id,
            final(self).context == old(self).context,
            final(self).stream_key_by == old(self).stream_key_by,
            final(self).stream_keyed_process == old(self).stream_keyed_process,
            final(self).next_runnable == old(self).next_runnable,
            final(self).counter == old(self).counter,
            final(self).last_checkpoint_id == old(self).last_checkpoint_id,
            final(self).received_log == old(self).received_log,
            final(self).opened == old(self).opened,
            final(self).shut == old(self).shut,
    {
        let mut drained: Vec<Checkpoint> = Vec::new();
        std::mem::swap(&mut drained, &mut self.checkpoint_outbox);
        drained
    }
}

impl<
    SK: KeySelectorFunction,
    PF: KeyedProcessFunction + NamedFunction,
    N: Runnable,
> Runnable for KeyedProcessRunnable<SK, PF, N> {
    open spec fn inv(&self) -> bool {
        self.wf()
    }

    open spec fn received(&self) -> Seq<Element> {
        self.received_log@
    }

    open spec fn opened(&self) -> bool {
        self.opened
    }

    open spec fn closed(&self) -> bool {
        self.shut
    }

    fn open(&mut self, context: &RunnableContext) -> Result<(), StreamError> {
        self.open_chain(context)
    }

    fn run(&mut self, element: Element) -> Result<(), StreamError> {
        self.run_element(element)
    }

    fn close(&mut self) -> Result<(), StreamError> {
        self.close_chain()
    }
}

/// A run of the barrier protocol: fold a sequence of offered
/// checkpoint ids through the acceptance rule, starting from the last
/// accepted id (if any); the result is the new last id and the
/// accepted ids, in order.
pub open spec fn barrier_fold(initial: Option<u64>, ids: Seq<u64>) -> (Option<u64>, Seq<u64>)
    decreases ids.len(),
{
    if ids.len() == 0 {
        (initial, Seq::empty())
    } else {
        let (last, accepted) = barrier_fold(initial, ids.drop_last());
        let id = ids.last();
        if last is Some && id <= last->0 {
            (last, accepted)
        } else {
            (Some(id), accepted.push(id))
        }
    }
}

/// Barrier ordering: for every sequence of offered barriers, the
/// checkpoint ids accepted at an operator are strictly increasing, and
/// all lie strictly above the id the operator had already accepted; a
/// decreasing or repeated id is rejected.
pub proof fn lemma_barrier_ordering(initial: Option<u64>, ids: Seq<u64>)
    ensures
        forall|i: int, j: int|
            0 <= i < j < barrier_fold(initial, ids).1.len() ==> barrier_fold(initial, ids).1[i]
                < barrier_fold(initial, ids).1[j],
        initial is Some ==> forall|i: int|
            0 <= i < barrier_fold(initial, ids).1.len() ==> barrier_fold(initial, ids).1[i]
                > initial->0,
        barrier_fold(initial, ids).0 == if barrier_fold(initial, ids).1.len() > 0 {
            Some(barrier_fold(initial, ids).1.last())
        } else {
            initial
        },
    decreases ids.len(),
{
    if ids.len() > 0 {
        lemma_barrier_ordering(initial, ids.drop_last());
    }
}

} // verus!
