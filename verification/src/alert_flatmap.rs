//! The unkeyed alarm stage and its handover-driven cleanup task.

use vstd::prelude::*;
use crate::agg_state::{insert_bucket, keep_buckets, sum_abs, window_values, TimeSeries};
use crate::accumulator::sum_of;
use crate::alert::{alarm_fires, build_alert_record, clamp_i64, is_alert_record, window_start_of};
use crate::buffer::FieldValue;
use crate::comparison::{eq_ignore_case, is_active_state, operator_of, parse_aggregator,
    parse_operator};
use crate::element::Record;
use crate::entities::{alarm_rule_event, alert, cleanup};
use crate::errors::{ChannelError, StreamError};
use crate::functions::{Context, FlatMapFunction, FnSchema, NamedFunction};
use crate::handover::Handover;

verus! {

/// The unkeyed alarm stage: buckets are indexed by raw event time, and
/// a cleanup signal for the background eviction task is produced after
/// every full evaluation.
#[derive(Debug)]
pub struct AlertFlatMapFunction {
    /// The largest window size observed so far, in the rule's window
    /// units.
    pub max_window_timestamp: i64,
    pub handover: Option<Handover>,
    pub state: TimeSeries,
}

impl AlertFlatMapFunction {
    pub fn new() -> (f: AlertFlatMapFunction)
        ensures
            f.max_window_timestamp == i64::MIN,
            f.handover is None,
            f.state@.len() == 0,
            f.state.wf(),
    {
        AlertFlatMapFunction {
            max_window_timestamp: i64::MIN,
            handover: None,
            state: TimeSeries::new(),
        }
    }

    /// Evaluate one rule/event pair against the time-bucket state.
    ///
    /// The amount is folded into the bucket at the raw event time before
    /// anything else; an inactive rule then skips evaluation.  After a
    /// full evaluation a cleanup record carrying
    /// `event_time - max_window * 1000` (clamped to the machine range)
    /// is produced to the handover for the background eviction task.
    pub fn flat_map0(&mut self, record: Record) -> (r: Result<Vec<Record>, StreamError>)
        requires
            old(self).state.wf(),
        ensures
            final(self).state.wf(),
            !alarm_rule_event::Entity::matches_schema(record@) ==> r == Err::<
                Vec<Record>,
                StreamError,
            >(StreamError::MalformedRecord) && *final(self) == *old(self),
            alarm_rule_event::Entity::matches_schema(record@) ==> ({
                let re = alarm_rule_event::Entity::spec_parse(record@);
                let inserted = insert_bucket(
                    old(self).state@,
                    re.event_time as int,
                    re.payment_amount,
                );
                let wv = window_values(inserted, window_start_of(re), re.event_time as int);
                &&& final(self).state@ == inserted
                &&& !eq_ignore_case(re.rule_state@, "ACTIVE"@) ==> r is Ok
                    && r->Ok_0@.len() == 0 && final(self).max_window_timestamp == old(
                    self,
                ).max_window_timestamp && final(self).handover == old(self).handover
                &&& eq_ignore_case(re.rule_state@, "ACTIVE"@) && !eq_ignore_case(
                    re.aggregator_function_type@,
                    "sum"@,
                ) ==> r == Err::<Vec<Record>, StreamError>(StreamError::UnsupportedAggregator)
                    && final(self).max_window_timestamp == old(self).max_window_timestamp
                    && final(self).handover == old(self).handover
                &&& eq_ignore_case(re.rule_state@, "ACTIVE"@) && eq_ignore_case(
                    re.aggregator_function_type@,
                    "sum"@,
                ) ==> {
                    &&& sum_abs(wv) > i64::MAX ==> r == Err::<Vec<Record>, StreamError>(
                        StreamError::AggregateOverflow,
                    ) && final(self).max_window_timestamp == old(self).max_window_timestamp
                        && final(self).handover == old(self).handover
                    &&& sum_abs(wv) <= i64::MAX && operator_of(re.limit_operator_type@) is None
                        ==> r == Err::<Vec<Record>, StreamError>(StreamError::UnsupportedOperator)
                        && final(self).max_window_timestamp == old(self).max_window_timestamp
                        && final(self).handover == old(self).handover
                    &&& sum_abs(wv) <= i64::MAX && operator_of(re.limit_operator_type@) is Some
                        ==> ({
                        let new_max = if re.window_minutes as int
                            > old(self).max_window_timestamp as int {
                            re.window_minutes as int
                        } else {
                            old(self).max_window_timestamp as int
                        };
                        let threshold = clamp_i64(re.event_time - new_max * 1000);
                        &&& final(self).max_window_timestamp == new_max
                        &&& old(self).handover is None ==> r == Err::<Vec<Record>, StreamError>(
                            StreamError::ChannelBroken,
                        ) && final(self).handover is None
                        &&& old(self).handover is Some ==> {
                            let h = old(self).handover->0;
                            &&& final(self).handover is Some
                            &&& final(self).handover->0.capacity == h.capacity
                            &&& final(self).handover->0.closed == h.closed
                            &&& final(self).handover->0.name == h.name
                            &&& (h.closed || !h.has_room()) ==> r == Err::<
                                Vec<Record>,
                                StreamError,
                            >(StreamError::ChannelBroken) && final(self).handover->0@ == h@
                            &&& (!h.closed && h.has_room()) ==> {
                                &&& final(self).handover->0@.len() == h@.len() + 1
                                &&& final(self).handover->0@.drop_last() == h@
                                &&& final(self).handover->0@.last()@ == seq![
                                    FieldValue::I64(threshold as i64),
                                ]
                                &&& alarm_fires(re, sum_of(wv)) ==> r is Ok
                                    && r->Ok_0@.len() == 1 && is_alert_record(
                                    r->Ok_0@[0]@,
                                    re,
                                    Seq::<char>::empty(),
                                    sum_of(wv),
                                )
                                &&& !alarm_fires(re, sum_of(wv)) ==> r is Ok
                                    && r->Ok_0@.len() == 0
                            }
                        }
                    })
                }
            }),
    {
        let rule_event = match alarm_rule_event::Entity::parse(&record) {
            Ok(e) => e,
            Err(_) => {
                return Err(StreamError::MalformedRecord);
            },
        };
        let event_time = rule_event.event_time;
        self.state.insert(event_time, rule_event.payment_amount);
        let active = is_active_state(rule_event.rule_state.as_str());
        let aggregator = parse_aggregator(rule_event.aggregator_function_type.as_str());
        if !active {
            return Ok(vec![]);
        }
        if aggregator.is_err() {
            return Err(StreamError::UnsupportedAggregator);
        }
        let window_millis: i64 = (rule_event.window_minutes as i64) * 1000;
        let window_start: i128 = event_time as i128 - window_millis as i128;
        let agg_result = match self.state.window_sum_checked(window_start, event_time as i128) {
            Some(v) => v,
            None => {
                return Err(StreamError::AggregateOverflow);
            },
        };
        let op = match parse_operator(rule_event.limit_operator_type.as_str()) {
            Ok(op) => op,
            Err(_) => {
                return Err(StreamError::UnsupportedOperator);
            },
        };
        let alarm = crate::comparison::compare(op, agg_result as i128, rule_event.limit);
        if (rule_event.window_minutes as i64) > self.max_window_timestamp {
            self.max_window_timestamp = rule_event.window_minutes as i64;
        }
        let wide_threshold: i128 = event_time as i128 - (self.max_window_timestamp as i128) * 1000;
        let cleanup_time: i64 = if wide_threshold < i64::MIN as i128 {
            i64::MIN
        } else if wide_threshold > i64::MAX as i128 {
            i64::MAX
        } else {
            wide_threshold as i64
        };
        let cleanup_entity = cleanup::Entity { cleanup_time };
        let cleanup_record = cleanup_entity.to_record();
        match &mut self.handover {
            None => {
                return Err(StreamError::ChannelBroken);
            },
            Some(h) => {
                match h.produce(cleanup_record) {
                    Ok(()) => {
                        proof {
                            assert(h@.drop_last() =~= old(self).handover->0@);
                        }
                    },
                    Err(_) => {
                        return Err(StreamError::ChannelBroken);
                    },
                }
            },
        }
        if alarm {
            let alert_record = build_alert_record(&rule_event, &String::new(), agg_result);
            let mut out: Vec<Record> = Vec::new();
            out.push(alert_record);
            Ok(out)
        } else {
            Ok(vec![])
        }
    }
}

impl NamedFunction for AlertFlatMapFunction {
    fn name(&self) -> &'static str {
        "AlertFlatMapFunction"
    }
}

impl FlatMapFunction for AlertFlatMapFunction {
    open spec fn inv(&self) -> bool {
        self.state.wf()
    }

    /// Opening installs the bounded handover that carries cleanup
    /// signals; the runtime that owns this stage drives the background
    /// eviction task against the same channel.
    fn open(&mut self, _context: &Context) -> Result<(), StreamError> {
        self.handover = Some(Handover::new(String::from_str("alert-flatmap"), 10000));
        Ok(())
    }

    fn flat_map(&mut self, record: Record) -> Result<Vec<Record>, StreamError> {
        self.flat_map0(record)
    }

    fn close(&mut self) -> Result<(), StreamError> {
        Ok(())
    }

    fn schema(&self, _input_schema: FnSchema) -> FnSchema {
        FnSchema::Single(alert::schema())
    }
}


/// The background eviction task of the unkeyed stage: it drains cleanup
/// signals from the handover and purges every bucket strictly below the
/// carried threshold.
#[derive(Debug)]
pub struct CleanUpTask {
    pub handover: Handover,
}

impl CleanUpTask {
    pub fn new(handover: Handover) -> (t: CleanUpTask)
        ensures
            t.handover == handover,
    {
        CleanUpTask { handover }
    }

    /// One step of the cleanup loop: take the next cleanup signal, if
    /// any, and purge every bucket whose time lies strictly below its
    /// threshold.  A signal that is not a cleanup record is consumed
    /// and ignored, and the loop goes on; an empty or closed channel is
    /// reported so the caller can back off or stop.
    pub fn clean_up_step(&mut self, state: &mut TimeSeries) -> (r: Result<usize, ChannelError>)
        requires
            old(state).wf(),
        ensures
            final(state).wf(),
            old(self).handover@.len() == 0 ==> r == Err::<usize, ChannelError>(
                if old(self).handover.closed {
                    ChannelError::Closed
                } else {
                    ChannelError::Empty
                },
            ) && *final(state) == *old(state) && final(self).handover@ == old(self).handover@,
            final(self).handover.capacity == old(self).handover.capacity,
            final(self).handover.closed == old(self).handover.closed,
            final(self).handover.name == old(self).handover.name,
            old(self).handover@.len() > 0 ==> ({
                let head = old(self).handover@[0];
                &&& final(self).handover@ == old(self).handover@.drop_first()
                &&& cleanup::Entity::matches_schema(head@) ==> ({
                    let threshold = cleanup::Entity::spec_parse(head@).cleanup_time;
                    &&& final(state)@ == keep_buckets(old(state)@, threshold - 1)
                    &&& r is Ok && r->Ok_0 == old(state)@.len() - final(state)@.len()
                })
                &&& !cleanup::Entity::matches_schema(head@) ==> *final(state) == *old(state)
                    && r == Ok::<usize, ChannelError>(0)
            }),
    {
        let record = match self.handover.try_poll_next() {
            Ok(record) => record,
            Err(e) => {
                return Err(e);
            },
        };
        let signal = match cleanup::Entity::parse(&record) {
            Ok(signal) => signal,
            Err(_) => {
                return Ok(0);
            },
        };
        let before = state.bucket_count();
        state.evict_below(signal.cleanup_time as i128 - 1);
        let after = state.bucket_count();
        proof {
            lemma_keep_len_le_flat(old(state)@, signal.cleanup_time as int - 1);
        }
        Ok(before - after)
    }
}

/// Eviction never grows the bucket count.
proof fn lemma_keep_len_le_flat(buckets: Seq<(int, Seq<i64>)>, th: int)
    ensures
        keep_buckets(buckets, th).len() <= buckets.len(),
    decreases buckets.len(),
{
    if buckets.len() > 0 {
        lemma_keep_len_le_flat(buckets.drop_last(), th);
    }
}

} // verus!
