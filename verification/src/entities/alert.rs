//! An emitted alarm: the violated rule, the triggering event and the
//! aggregate value that crossed the limit.
//! The triggering value is carried in integer minor units.

use vstd::prelude::*;
use crate::buffer::{Field, FieldType, FieldValue, Schema};
use crate::element::Record;
use crate::errors::StreamError;

verus! {

/// The declared fields, in order.
pub open spec fn spec_field_types() -> Seq<FieldType> {
    seq![
        FieldType::UInt32,
        FieldType::Utf8,
        FieldType::Utf8,
        FieldType::Utf8,
        FieldType::Int64,
    ]
}

/// The declared schema of this entity.
pub fn schema() -> (s: Schema)
    ensures
        s@.len() == spec_field_types().len(),
        forall|i: int| 0 <= i < s@.len() ==> s@[i].field_type == spec_field_types()[i],
{
    let mut fields: Vec<Field> = Vec::new();
    fields.push(Field::new(String::from_str("ruleId"), FieldType::UInt32));
    fields.push(Field::new(String::from_str("violatedRule"), FieldType::Utf8));
    fields.push(Field::new(String::from_str("key"), FieldType::Utf8));
    fields.push(Field::new(String::from_str("triggeringEvent"), FieldType::Utf8));
    fields.push(Field::new(String::from_str("triggeringValue"), FieldType::Int64));
    Schema::new(fields)
}

#[derive(Clone, Debug)]
pub struct Entity {
    pub rule_id: u32,
    pub violated_rule: String,
    pub key: String,
    pub triggering_event: String,
    pub triggering_value: i64,
}

impl Entity {
    /// The field values this entity writes, in declared order.
    pub open spec fn field_seq(self) -> Seq<FieldValue> {
        seq![
            FieldValue::U32(self.rule_id),
            FieldValue::Str(self.violated_rule),
            FieldValue::Str(self.key),
            FieldValue::Str(self.triggering_event),
            FieldValue::I64(self.triggering_value),
        ]
    }

    /// Whether a record's fields fit this schema.
    pub open spec fn matches_schema(fields: Seq<FieldValue>) -> bool {
        fields.len() == 5
            && fields[0] is U32
            && fields[1] is Str
            && fields[2] is Str
            && fields[3] is Str
            && fields[4] is I64
    }

    /// The entity a record of this schema carries, field by field.
    pub open spec fn spec_parse(fields: Seq<FieldValue>) -> Entity {
        Entity {
            rule_id: fields[0]->U32_0,
            violated_rule: fields[1]->Str_0,
            key: fields[2]->Str_0,
            triggering_event: fields[3]->Str_0,
            triggering_value: fields[4]->I64_0,
        }
    }


    /// Round trip: the record an entity writes fits the schema and
    /// reads back as exactly the same entity, field for field.
    pub proof fn lemma_round_trip(e: Entity)
        ensures
            Entity::matches_schema(e.field_seq()),
            Entity::spec_parse(e.field_seq()) == e,
    {
    }

    pub fn to_record(&self) -> (r: Record)
        ensures
            r@ == self.field_seq(),
    {
        let mut record = Record::new();
        record.buffer.fields.push(FieldValue::U32(self.rule_id));
        record.buffer.fields.push(FieldValue::Str(self.violated_rule.clone()));
        record.buffer.fields.push(FieldValue::Str(self.key.clone()));
        record.buffer.fields.push(FieldValue::Str(self.triggering_event.clone()));
        record.buffer.fields.push(FieldValue::I64(self.triggering_value));
        proof {
            assert(record@ =~= self.field_seq());
        }
        record
    }

    /// Read an entity back; fails exactly on a record that does not fit
    /// the schema.
    pub fn parse(record: &Record) -> (r: Result<Entity, StreamError>)
        ensures
            r is Ok <==> Self::matches_schema(record@),
            r is Ok ==> r->Ok_0.field_seq() == record@,
            r is Ok ==> r->Ok_0 == Self::spec_parse(record@),
    {
        if record.len() != 5 {
            return Err(StreamError::MalformedRecord);
        }
        let rule_id = match record.get_u32(0) {
            Ok(v) => v,
            Err(_) => {
                return Err(StreamError::MalformedRecord);
            },
        };
        let violated_rule = match record.get_str(1) {
            Ok(v) => v.clone(),
            Err(_) => {
                return Err(StreamError::MalformedRecord);
            },
        };
        let key = match record.get_str(2) {
            Ok(v) => v.clone(),
            Err(_) => {
                return Err(StreamError::MalformedRecord);
            },
        };
        let triggering_event = match record.get_str(3) {
            Ok(v) => v.clone(),
            Err(_) => {
                return Err(StreamError::MalformedRecord);
            },
        };
        let triggering_value = match record.get_i64(4) {
            Ok(v) => v,
            Err(_) => {
                return Err(StreamError::MalformedRecord);
            },
        };
        let entity = Entity {
            rule_id,
            violated_rule,
            key,
            triggering_event,
            triggering_value,
        };
        proof {
            assert(entity.field_seq() =~= record@);
            assert(entity == Self::spec_parse(record@));
        }
        Ok(entity)
    }
}

} // verus!
