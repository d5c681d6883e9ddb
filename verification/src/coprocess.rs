//! The control-stream / data-stream join: rules arrive on the control
//! input and are retained in memory keyed by rule id; each data event
//! is joined against every retained rule, producing one rule/event
//! record per rule.
//!
//! The rule map grows with distinct rule ids and is never evicted: the
//! control stream is assumed small enough to retain indefinitely.

use vstd::prelude::*;
use crate::element::Record;
use crate::entities::{alarm_event, alarm_rule, alarm_rule_event};
use crate::errors::StreamError;
use crate::functions::{Context, CoProcessFunction, FnSchema, NamedFunction};
use crate::buffer::FieldValue;
use crate::time::current_timestamp_millis;

verus! {

/// Whether a record is the join of one rule with one event under a
/// rule id; the ingestion timestamp is stamped from the wall clock, so
/// only its type is pinned.
pub open spec fn is_joined_record(
    fields: Seq<FieldValue>,
    id: u32,
    rule: alarm_rule::Entity,
    event: alarm_event::Entity,
) -> bool {
    &&& fields.len() == 17
    &&& fields[0] == FieldValue::U32(id)
    &&& fields[1] is Str && fields[1]->Str_0@ == rule.rule_state@
    &&& fields[2] is Str && fields[2]->Str_0@ == rule.grouping_key_names@
    &&& fields[3] is Str && fields[3]->Str_0@.len() == 0
    &&& fields[4] is Str && fields[4]->Str_0@ == rule.aggregate_field_name@
    &&& fields[5] is Str && fields[5]->Str_0@ == rule.aggregator_function_type@
    &&& fields[6] is Str && fields[6]->Str_0@ == rule.limit_operator_type@
    &&& fields[7] == FieldValue::I64(rule.limit as i64)
    &&& fields[8] == FieldValue::I32(rule.window_minutes)
    &&& fields[9] is Str && fields[9]->Str_0@.len() == 0
    &&& fields[10] == FieldValue::I64(event.transaction_id)
    &&& fields[11] == FieldValue::I64(event.event_time)
    &&& fields[12] == FieldValue::I64(event.payee_id)
    &&& fields[13] == FieldValue::I64(event.beneficiary_id)
    &&& fields[14] == FieldValue::I64(event.payment_amount)
    &&& fields[15] is Str && fields[15]->Str_0@ == event.payment_type@
    &&& fields[16] is U64
}

/// The in-memory broadcast join.
#[derive(Debug)]
pub struct RuleCoProcessFunction {
    /// The retained control stream: one record per rule id, in order of
    /// first arrival.
    pub rule_map: Vec<(u32, Record)>,
}

impl RuleCoProcessFunction {
    /// Well-formed: rule ids are unique and every retained record fits
    /// the rule schema.
    pub open spec fn wf(&self) -> bool {
        &&& forall|i: int, j: int|
            0 <= i < j < self.rule_map@.len() ==> self.rule_map@[i].0 != self.rule_map@[j].0
        &&& forall|i: int|
            0 <= i < self.rule_map@.len() ==> alarm_rule::Entity::matches_schema(
                #[trigger] self.rule_map@[i].1@,
            )
    }

    pub fn new() -> (f: RuleCoProcessFunction)
        ensures
            f.rule_map@.len() == 0,
            f.wf(),
    {
        RuleCoProcessFunction { rule_map: Vec::new() }
    }

    /// Join one data event against every retained rule, in retained
    /// order, stamping each joined record with the wall clock.
    #[verifier::loop_isolation(false)]
    pub fn process_left0(&mut self, record: Record) -> (r: Result<Vec<Record>, StreamError>)
        requires
            old(self).wf(),
        ensures
            *final(self) == *old(self),
            r is Ok <==> alarm_event::Entity::matches_schema(record@),
            r is Err ==> r == Err::<Vec<Record>, StreamError>(StreamError::MalformedRecord),
            r is Ok ==> ({
                let event = alarm_event::Entity::spec_parse(record@);
                &&& r->Ok_0@.len() == old(self).rule_map@.len()
                &&& forall|i: int|
                    0 <= i < r->Ok_0@.len() ==> is_joined_record(
                        #[trigger] r->Ok_0@[i]@,
                        old(self).rule_map@[i].0,
                        alarm_rule::Entity::spec_parse(old(self).rule_map@[i].1@),
                        event,
                    )
            }),
    {
        let event = match alarm_event::Entity::parse(&record) {
            Ok(e) => e,
            Err(_) => {
                return Err(StreamError::MalformedRecord);
            },
        };
        let mut records: Vec<Record> = Vec::new();
        let n = self.rule_map.len();
        let mut i: usize = 0;
        while i < n
            invariant
                n == self.rule_map@.len(),
                i <= n,
                records@.len() == i,
                forall|j: int|
                    0 <= j < i ==> is_joined_record(
                        #[trigger] records@[j]@,
                        self.rule_map@[j].0,
                        alarm_rule::Entity::spec_parse(self.rule_map@[j].1@),
                        alarm_event::Entity::spec_parse(record@),
                    ),
            decreases n - i,
        {
            let rule_id = self.rule_map[i].0;
            let rule = match alarm_rule::Entity::parse(&self.rule_map[i].1) {
                Ok(rule) => rule,
                Err(_) => {
                    proof {
                        assert(alarm_rule::Entity::matches_schema(self.rule_map@[i as int].1@));
                    }
                    return Err(StreamError::MalformedRecord);
                },
            };
            let joined = alarm_rule_event::Entity {
                rule_id,
                rule_state: rule.rule_state,
                grouping_key_names: rule.grouping_key_names,
                unique: String::new(),
                aggregate_field_name: rule.aggregate_field_name,
                aggregator_function_type: rule.aggregator_function_type,
                limit_operator_type: rule.limit_operator_type,
                limit: rule.limit as i64,
                window_minutes: rule.window_minutes,
                control_type: String::new(),
                transaction_id: event.transaction_id,
                event_time: event.event_time,
                payee_id: event.payee_id,
                beneficiary_id: event.beneficiary_id,
                payment_amount: event.payment_amount,
                payment_type: event.payment_type.clone(),
                ingestion_timestamp: current_timestamp_millis(),
            };
            records.push(joined.to_record());
            i = i + 1;
        }
        Ok(records)
    }

    /// Retain one control record, replacing any rule with the same id.
    #[verifier::loop_isolation(false)]
    pub fn process_right0(&mut self, record: Record) -> (r: Result<Vec<Record>, StreamError>)
        requires
            old(self).wf(),
        ensures
            final(self).wf(),
            r is Ok <==> alarm_rule::Entity::matches_schema(record@),
            r is Err ==> r == Err::<Vec<Record>, StreamError>(StreamError::MalformedRecord)
                && *final(self) == *old(self),
            r is Ok ==> r->Ok_0@.len() == 0,
            r is Ok ==> ({
                let id = alarm_rule::Entity::spec_parse(record@).rule_id;
                &&& (forall|j: int|
                    0 <= j < old(self).rule_map@.len() ==> old(self).rule_map@[j].0 != id)
                    ==> final(self).rule_map@ == old(self).rule_map@.push((id, record))
                &&& (exists|j: int|
                    0 <= j < old(self).rule_map@.len() && old(self).rule_map@[j].0 == id)
                    ==> exists|j: int|
                        0 <= j < old(self).rule_map@.len() && old(self).rule_map@[j].0 == id
                            && final(self).rule_map@ == old(self).rule_map@.update(
                            j,
                            (id, record),
                        )
            }),
    {
        let rule = match alarm_rule::Entity::parse(&record) {
            Ok(rule) => rule,
            Err(_) => {
                return Err(StreamError::MalformedRecord);
            },
        };
        let id = rule.rule_id;
        let n = self.rule_map.len();
        let mut i: usize = 0;
        while i < n
            invariant
                n == self.rule_map@.len(),
                i <= n,
                *self == *old(self),
                forall|j: int| 0 <= j < i ==> self.rule_map@[j].0 != id,
            decreases n - i,
        {
            if self.rule_map[i].0 == id {
                let _previous = self.rule_map.remove(i);
                self.rule_map.insert(i, (id, record));
                proof {
                    assert(self.rule_map@ =~= old(self).rule_map@.update(i as int, (id, record)));
                }
                return Ok(Vec::new());
            }
            i = i + 1;
        }
        self.rule_map.push((id, record));
        Ok(Vec::new())
    }
}

impl NamedFunction for RuleCoProcessFunction {
    fn name(&self) -> &'static str {
        "RuleCoProcessFunction"
    }
}

impl CoProcessFunction for RuleCoProcessFunction {
    open spec fn inv(&self) -> bool {
        self.wf()
    }

    fn open(&mut self, _context: &Context) -> Result<(), StreamError> {
        Ok(())
    }

    fn process_left(&mut self, record: Record) -> Result<Vec<Record>, StreamError> {
        self.process_left0(record)
    }

    fn process_right(&mut self, _stream_seq: usize, record: Record) -> Result<
        Vec<Record>,
        StreamError,
    > {
        self.process_right0(record)
    }

    fn close(&mut self) -> Result<(), StreamError> {
        Ok(())
    }

    fn schema(&self, _input_schema: FnSchema) -> FnSchema {
        FnSchema::Single(alarm_rule_event::schema())
    }
}

/// A placeholder two-input stage: it offers no behaviour yet, and every
/// call reports a fatal error rather than silently passing data on.
#[derive(Debug)]
pub struct AlertCoProcessFunction {}

impl AlertCoProcessFunction {
    pub fn new() -> (f: AlertCoProcessFunction) {
        AlertCoProcessFunction {  }
    }
}

impl CoProcessFunction for AlertCoProcessFunction {
    open spec fn inv(&self) -> bool {
        true
    }

    fn open(&mut self, _context: &Context) -> Result<(), StreamError> {
        Err(StreamError::NotImplemented)
    }

    fn process_left(&mut self, _record: Record) -> Result<Vec<Record>, StreamError> {
        Err(StreamError::NotImplemented)
    }

    fn process_right(&mut self, _stream_seq: usize, _record: Record) -> Result<
        Vec<Record>,
        StreamError,
    > {
        Err(StreamError::NotImplemented)
    }

    fn close(&mut self) -> Result<(), StreamError> {
        Err(StreamError::NotImplemented)
    }

    fn schema(&self, _input_schema: FnSchema) -> FnSchema {
        FnSchema::Empty
    }
}

} // verus!
