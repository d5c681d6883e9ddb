//! The keyed alarm stage and its background cleanup task.

use vstd::prelude::*;
use crate::agg_state::{buckets_of, evict_view, insert_view, keep_buckets, sum_abs,
    total_buckets, window_values, KeyedAggState};
use crate::accumulator::sum_of;
use crate::alert::{alarm_fires, bucket_second, build_alert_record, floor_to_second,
    is_alert_record, window_start_of};
use crate::comparison::{eq_ignore_case, is_active_state, operator_of, parse_aggregator,
    parse_operator};
use crate::element::Record;
use crate::entities::{alarm_rule_event, alert, dynamic_key};
use crate::errors::StreamError;
use crate::functions::{Context, FnSchema, KeyedProcessFunction, NamedFunction};

verus! {

/// The keyed alarm stage: evaluates each rule/event pair against its
/// own injected keyed state, so several pipelines can run in one
/// process.  Two ghost logs record every pair the stage processed and
/// every result it handed back, so the chain's contracts can tie what
/// entered to what left.
pub struct AlertKeyedProcessFunction {
    pub parallelism: u16,
    pub state: KeyedAggState,
    pub history: Ghost<Seq<(Record, Record)>>,
    pub outputs: Ghost<Seq<Option<Record>>>,
}

impl AlertKeyedProcessFunction {
    pub fn new(parallelism: u16) -> (f: AlertKeyedProcessFunction)
        ensures
            f.parallelism == parallelism,
            f.state@.len() == 0,
            f.state.wf(),
            f.state.max_window_millis == i64::MIN,
            f.history@.len() == 0,
            f.outputs@.len() == 0,
    {
        AlertKeyedProcessFunction {
            parallelism,
            state: KeyedAggState::new(),
            history: Ghost(Seq::empty()),
            outputs: Ghost(Seq::empty()),
        }
    }

    /// Evaluate one keyed rule/event pair.
    ///
    /// The amount is folded into the key's bucket at the event's second
    /// before anything else, exactly once per call, whatever the rule
    /// says; an inactive rule then skips evaluation.
    pub fn process_0(&mut self, key: Record, record: Record) -> (r: Result<
        Option<Record>,
        StreamError,
    >)
        requires
            old(self).state.wf(),
        ensures
            final(self).parallelism == old(self).parallelism,
            final(self).state.wf(),
            r is Ok ==> final(self).history@ == old(self).history@.push((key, record))
                && final(self).outputs@ == old(self).outputs@.push(r->Ok_0),
            r is Err ==> final(self).history@ == old(self).history@ && final(self).outputs@
                == old(self).outputs@,
            !alarm_rule_event::Entity::matches_schema(record@) ==> r == Err::<
                Option<Record>,
                StreamError,
            >(StreamError::MalformedRecord) && *final(self) == *old(self),
            alarm_rule_event::Entity::matches_schema(record@)
                && !dynamic_key::Entity::matches_schema(key@) ==> r == Err::<
                Option<Record>,
                StreamError,
            >(StreamError::MalformedRecord) && *final(self) == *old(self),
            alarm_rule_event::Entity::matches_schema(record@)
                && dynamic_key::Entity::matches_schema(key@) ==> ({
                let re = alarm_rule_event::Entity::spec_parse(record@);
                let rk = dynamic_key::Entity::spec_parse(key@).dynamic_key@;
                let tm = bucket_second(re.event_time as int);
                let inserted = insert_view(old(self).state@, rk, tm, re.payment_amount);
                let wv = window_values(buckets_of(inserted, rk), window_start_of(re), tm);
                &&& final(self).state@ == inserted
                &&& !eq_ignore_case(re.rule_state@, "ACTIVE"@) ==> r == Ok::<
                    Option<Record>,
                    StreamError,
                >(None) && final(self).state.max_window_millis == old(
                    self,
                ).state.max_window_millis
                &&& eq_ignore_case(re.rule_state@, "ACTIVE"@) && !eq_ignore_case(
                    re.aggregator_function_type@,
                    "sum"@,
                ) ==> r == Err::<Option<Record>, StreamError>(StreamError::UnsupportedAggregator)
                    && final(self).state.max_window_millis == old(self).state.max_window_millis
                &&& eq_ignore_case(re.rule_state@, "ACTIVE"@) && eq_ignore_case(
                    re.aggregator_function_type@,
                    "sum"@,
                ) ==> {
                    &&& sum_abs(wv) > i64::MAX ==> r == Err::<Option<Record>, StreamError>(
                        StreamError::AggregateOverflow,
                    ) && final(self).state.max_window_millis == old(self).state.max_window_millis
                    &&& sum_abs(wv) <= i64::MAX && operator_of(re.limit_operator_type@) is None
                        ==> r == Err::<Option<Record>, StreamError>(
                        StreamError::UnsupportedOperator,
                    ) && final(self).state.max_window_millis == old(self).state.max_window_millis
                    &&& sum_abs(wv) <= i64::MAX && operator_of(re.limit_operator_type@) is Some
                        ==> {
                        &&& final(self).state.max_window_millis == if re.window_minutes * 1000
                            > old(self).state.max_window_millis {
                            re.window_minutes * 1000
                        } else {
                            old(self).state.max_window_millis as int
                        }
                        &&& alarm_fires(re, sum_of(wv)) ==> r is Ok && r->Ok_0 is Some
                            && is_alert_record(r->Ok_0->0@, re, rk, sum_of(wv))
                        &&& !alarm_fires(re, sum_of(wv)) ==> r == Ok::<
                            Option<Record>,
                            StreamError,
                        >(None)
                    }
                }
            }),
    {
        let rule_event = match alarm_rule_event::Entity::parse(&record) {
            Ok(e) => e,
            Err(_) => {
                return Err(StreamError::MalformedRecord);
            },
        };
        let rule_key = match dynamic_key::Entity::parse(&key) {
            Ok(e) => e.dynamic_key,
            Err(_) => {
                return Err(StreamError::MalformedRecord);
            },
        };
        let event_time = rule_event.event_time;
        let event_time_mod = floor_to_second(event_time);
        self.state.insert(&rule_key, event_time_mod, rule_event.payment_amount);
        let active = is_active_state(rule_event.rule_state.as_str());
        let aggregator = parse_aggregator(rule_event.aggregator_function_type.as_str());
        if !active {
            proof {
                self.history@ = self.history@.push((key, record));
                self.outputs@ = self.outputs@.push(None);
            }
            return Ok(None);
        }
        if aggregator.is_err() {
            return Err(StreamError::UnsupportedAggregator);
        }
        let window_millis: i64 = (rule_event.window_minutes as i64) * 1000;
        let window_start: i128 = event_time as i128 - window_millis as i128;
        let agg_result = match self.state.window_sum_checked(
            &rule_key,
            window_start,
            event_time_mod as i128,
        ) {
            Some(v) => v,
            None => {
                return Err(StreamError::AggregateOverflow);
            },
        };
        let op = match parse_operator(rule_event.limit_operator_type.as_str()) {
            Ok(op) => op,
            Err(_) => {
                return Err(StreamError::UnsupportedOperator);
            },
        };
        let alarm = crate::comparison::compare(op, agg_result as i128, rule_event.limit);
        self.state.observe_window(window_millis);
        if alarm {
            let alert_record = build_alert_record(&rule_event, &rule_key, agg_result);
            proof {
                self.history@ = self.history@.push((key, record));
                self.outputs@ = self.outputs@.push(Some(alert_record));
            }
            Ok(Some(alert_record))
        } else {
            proof {
                self.history@ = self.history@.push((key, record));
                self.outputs@ = self.outputs@.push(None);
            }
            Ok(None)
        }
    }
}

impl NamedFunction for AlertKeyedProcessFunction {
    fn name(&self) -> &'static str {
        "AlertKeyedProcessFunction"
    }
}

impl crate::checkpoint::CheckpointFunction for AlertKeyedProcessFunction {
    open spec fn restore_inv(&self) -> bool {
        self.state.wf()
    }

    /// A snapshot of this stage is exactly the token that records the
    /// context's checkpoint id as completed.
    open spec fn is_snapshot(
        &self,
        context: crate::checkpoint::FunctionSnapshotContext,
        handle: Option<crate::checkpoint::CheckpointHandle>,
    ) -> bool {
        handle is Some && handle->0.handle@ == crate::checkpoint::handle_token(
            Some(context.checkpoint_id),
        )
    }

    /// The tie-break rule: the completed id embedded in a handle always
    /// wins over any externally tracked counter; with no decodable id,
    /// the context's own checkpoint id stands.
    fn consult_version(
        &self,
        context: &crate::checkpoint::FunctionSnapshotContext,
        handle: &Option<crate::checkpoint::CheckpointHandle>,
    ) -> (r: u64)
        ensures
            r == ({
                match *handle {
                    Some(h) => match crate::runnable::derived_completed(h.handle@) {
                        Some(id) => id,
                        None => context.checkpoint_id,
                    },
                    None => context.checkpoint_id,
                }
            }),
    {
        match handle {
            Some(h) => {
                match crate::runnable::derive_completed(h) {
                    Some(id) => id,
                    None => context.checkpoint_id,
                }
            },
            None => context.checkpoint_id,
        }
    }

    /// A handle carries only checkpoint lineage, never bucket contents,
    /// so a restore always begins from empty keyed state.
    fn initialize_state(
        &mut self,
        _context: &crate::checkpoint::FunctionSnapshotContext,
        _handle: &Option<crate::checkpoint::CheckpointHandle>,
    )
        ensures
            final(self).state@.len() == 0,
            final(self).state.wf(),
            final(self).parallelism == old(self).parallelism,
            final(self).history == old(self).history,
            final(self).outputs == old(self).outputs,
    {
        self.state = KeyedAggState::new();
    }

    /// The snapshot token records this checkpoint as the completed one.
    fn snapshot_state(&self, context: &crate::checkpoint::FunctionSnapshotContext) -> (r: Option<
        crate::checkpoint::CheckpointHandle,
    >)
        ensures
            r is Some && r->0.handle@ == crate::checkpoint::handle_token(
                Some(context.checkpoint_id),
            ),
    {
        let token = crate::checkpoint::KeyedProcessCheckpointHandle::new(
            Some(context.checkpoint_id),
        ).encode();
        Some(crate::checkpoint::CheckpointHandle { handle: token })
    }
}

impl KeyedProcessFunction for AlertKeyedProcessFunction {
    open spec fn inv(&self) -> bool {
        self.state.wf()
    }

    open spec fn taken(&self) -> Seq<(Record, Record)> {
        self.history@
    }

    open spec fn produced(&self) -> Seq<Option<Record>> {
        self.outputs@
    }

    fn open(&mut self, _context: &Context) -> Result<(), StreamError> {
        Ok(())
    }

    fn process(&mut self, key: Record, record: Record) -> Result<Option<Record>, StreamError> {
        self.process_0(key, record)
    }

    fn close(&mut self) -> Result<(), StreamError> {
        Ok(())
    }

    fn parallelism(&self) -> u16 {
        self.parallelism
    }

    fn schema(&self, _input_schema: FnSchema) -> FnSchema {
        FnSchema::Single(alert::schema())
    }
}


/// The background eviction task of the keyed stage: each pass computes
/// the high-water mark from everything stored and purges below it,
/// counting what it removed.
#[derive(Debug)]
pub struct CleanUpTask {
    /// How many buckets the task has removed so far.
    pub inner_remove_count: u128,
    /// How many whole keys the task has removed so far.
    pub out_remove_count: u64,
}

impl CleanUpTask {
    pub fn new() -> (t: CleanUpTask)
        ensures
            t.inner_remove_count == 0,
            t.out_remove_count == 0,
    {
        CleanUpTask { inner_remove_count: 0, out_remove_count: 0 }
    }

    /// One eviction pass: purge every bucket at or below
    /// `max_observed_time - max_window`, drop emptied keys, and add
    /// what was removed to the counters (saturating at their machine
    /// limits).
    pub fn clean_up_pass(&mut self, state: &mut KeyedAggState)
        requires
            old(state).wf(),
        ensures
            final(state)@ == evict_view(old(state)@, old(state).eviction_threshold()),
            final(state).wf(),
            final(state).max_window_millis == old(state).max_window_millis,
            final(self).inner_remove_count as int == ({
                let removed = total_buckets(old(state)@) - total_buckets(final(state)@);
                if old(self).inner_remove_count + removed <= u128::MAX {
                    old(self).inner_remove_count + removed
                } else {
                    u128::MAX as int
                }
            }),
            final(self).out_remove_count as int == ({
                let removed = old(state)@.len() - final(state)@.len();
                if old(self).out_remove_count + removed <= u64::MAX {
                    old(self).out_remove_count + removed
                } else {
                    u64::MAX as int
                }
            }),
    {
        let buckets_before = state.count_buckets();
        let keys_before = state.key_count();
        state.evict_pass();
        let buckets_after = state.count_buckets();
        let keys_after = state.key_count();
        proof {
            lemma_evict_total_le(old(state)@, old(state).eviction_threshold());
            lemma_evict_len_le(old(state)@, old(state).eviction_threshold());
        }
        let removed_buckets = buckets_before - buckets_after;
        let removed_keys = (keys_before - keys_after) as u64;
        if removed_buckets <= u128::MAX - self.inner_remove_count {
            self.inner_remove_count = self.inner_remove_count + removed_buckets;
        } else {
            self.inner_remove_count = u128::MAX;
        }
        if removed_keys <= u64::MAX - self.out_remove_count {
            self.out_remove_count = self.out_remove_count + removed_keys;
        } else {
            self.out_remove_count = u64::MAX;
        }
    }
}

/// Eviction never grows the bucket count.
pub proof fn lemma_evict_total_le(entries: Seq<(Seq<char>, Seq<(int, Seq<i64>)>)>, th: int)
    ensures
        total_buckets(evict_view(entries, th)) <= total_buckets(entries),
    decreases entries.len(),
{
    if entries.len() > 0 {
        lemma_evict_total_le(entries.drop_last(), th);
        lemma_keep_len_le(entries.last().1, th);
        let ev = evict_view(entries, th);
        let kept = keep_buckets(entries.last().1, th);
        if kept.len() > 0 {
            assert(ev.drop_last() =~= evict_view(entries.drop_last(), th));
            assert(ev.last() == (entries.last().0, kept));
        }
    }
}

/// Eviction never keeps more buckets of one key than it had.
pub proof fn lemma_keep_len_le(buckets: Seq<(int, Seq<i64>)>, th: int)
    ensures
        keep_buckets(buckets, th).len() <= buckets.len(),
    decreases buckets.len(),
{
    if buckets.len() > 0 {
        lemma_keep_len_le(buckets.drop_last(), th);
    }
}

/// Eviction never grows the key count.
pub proof fn lemma_evict_len_le(entries: Seq<(Seq<char>, Seq<(int, Seq<i64>)>)>, th: int)
    ensures
        evict_view(entries, th).len() <= entries.len(),
    decreases entries.len(),
{
    if entries.len() > 0 {
        lemma_evict_len_le(entries.drop_last(), th);
    }
}

} // verus!
