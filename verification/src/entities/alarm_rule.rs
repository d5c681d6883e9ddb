//! A control-stream rule, decoded from the rule stream.

use vstd::prelude::*;
use crate::buffer::{Field, FieldType, FieldValue, Schema};
use crate::element::Record;
use crate::errors::StreamError;

verus! {

/// The declared fields, in order.
pub open spec fn spec_field_types() -> Seq<FieldType> {
    seq![
        FieldType::UInt32,
        FieldType::Utf8,
        FieldType::Utf8,
        FieldType::Utf8,
        FieldType::UInt32,
        FieldType::Utf8,
        FieldType::Utf8,
        FieldType::Int32,
    ]
}

/// The declared schema of this entity.
pub fn schema() -> (s: Schema)
    ensures
        s@.len() == spec_field_types().len(),
        forall|i: int| 0 <= i < s@.len() ==> s@[i].field_type == spec_field_types()[i],
{
    let mut fields: Vec<Field> = Vec::new();
    fields.push(Field::new(String::from_str("ruleId"), FieldType::UInt32));
    fields.push(Field::new(String::from_str("aggregateFieldName"), FieldType::Utf8));
    fields.push(Field::new(String::from_str("aggregatorFunctionType"), FieldType::Utf8));
    fields.push(Field::new(String::from_str("groupingKeyNames"), FieldType::Utf8));
    fields.push(Field::new(String::from_str("limit"), FieldType::UInt32));
    fields.push(Field::new(String::from_str("limitOperatorType"), FieldType::Utf8));
    fields.push(Field::new(String::from_str("ruleState"), FieldType::Utf8));
    fields.push(Field::new(String::from_str("windowMinutes"), FieldType::Int32));
    Schema::new(fields)
}

#[derive(Clone, Debug)]
pub struct Entity {
    pub rule_id: u32,
    pub aggregate_field_name: String,
    pub aggregator_function_type: String,
    pub grouping_key_names: String,
    pub limit: u32,
    pub limit_operator_type: String,
    pub rule_state: String,
    pub window_minutes: i32,
}

impl Entity {
    /// The field values this entity writes, in declared order.
    pub open spec fn field_seq(self) -> Seq<FieldValue> {
        seq![
            FieldValue::U32(self.rule_id),
            FieldValue::Str(self.aggregate_field_name),
            FieldValue::Str(self.aggregator_function_type),
            FieldValue::Str(self.grouping_key_names),
            FieldValue::U32(self.limit),
            FieldValue::Str(self.limit_operator_type),
            FieldValue::Str(self.rule_state),
            FieldValue::I32(self.window_minutes),
        ]
    }

    /// Whether a record's fields fit this schema.
    pub open spec fn matches_schema(fields: Seq<FieldValue>) -> bool {
        fields.len() == 8
            && fields[0] is U32
            && fields[1] is Str
            && fields[2] is Str
            && fields[3] is Str
            && fields[4] is U32
            && fields[5] is Str
            && fields[6] is Str
            && fields[7] is I32
    }

    /// The entity a record of this schema carries, field by field.
    pub open spec fn spec_parse(fields: Seq<FieldValue>) -> Entity {
        Entity {
            rule_id: fields[0]->U32_0,
            aggregate_field_name: fields[1]->Str_0,
            aggregator_function_type: fields[2]->Str_0,
            grouping_key_names: fields[3]->Str_0,
            limit: fields[4]->U32_0,
            limit_operator_type: fields[5]->Str_0,
            rule_state: fields[6]->Str_0,
            window_minutes: fields[7]->I32_0,
        }
    }


    /// Round trip: the record an entity writes fits the schema and
    /// reads back as exactly the same entity, field for field.
    pub proof fn lemma_round_trip(e: Entity)
        ensures
            Entity::matches_schema(e.field_seq()),
            Entity::spec_parse(e.field_seq()) == e,
    {
    }

    pub fn to_record(&self) -> (r: Record)
        ensures
            r@ == self.field_seq(),
    {
        let mut record = Record::new();
        record.buffer.fields.push(FieldValue::U32(self.rule_id));
        record.buffer.fields.push(FieldValue::Str(self.aggregate_field_name.clone()));
        record.buffer.fields.push(FieldValue::Str(self.aggregator_function_type.clone()));
        record.buffer.fields.push(FieldValue::Str(self.grouping_key_names.clone()));
        record.buffer.fields.push(FieldValue::U32(self.limit));
        record.buffer.fields.push(FieldValue::Str(self.limit_operator_type.clone()));
        record.buffer.fields.push(FieldValue::Str(self.rule_state.clone()));
        record.buffer.fields.push(FieldValue::I32(self.window_minutes));
        proof {
            assert(record@ =~= self.field_seq());
        }
        record
    }

    /// Read an entity back; fails exactly on a record that does not fit
    /// the schema.
    pub fn parse(record: &Record) -> (r: Result<Entity, StreamError>)
        ensures
            r is Ok <==> Self::matches_schema(record@),
            r is Ok ==> r->Ok_0.field_seq() == record@,
            r is Ok ==> r->Ok_0 == Self::spec_parse(record@),
    {
        if record.len() != 8 {
            return Err(StreamError::MalformedRecord);
        }
        let rule_id = match record.get_u32(0) {
            Ok(v) => v,
            Err(_) => {
                return Err(StreamError::MalformedRecord);
            },
        };
        let aggregate_field_name = match record.get_str(1) {
            Ok(v) => v.clone(),
            Err(_) => {
                return Err(StreamError::MalformedRecord);
            },
        };
        let aggregator_function_type = match record.get_str(2) {
            Ok(v) => v.clone(),
            Err(_) => {
                return Err(StreamError::MalformedRecord);
            },
        };
        let grouping_key_names = match record.get_str(3) {
            Ok(v) => v.clone(),
            Err(_) => {
                return Err(StreamError::MalformedRecord);
            },
        };
        let limit = match record.get_u32(4) {
            Ok(v) => v,
            Err(_) => {
                return Err(StreamError::MalformedRecord);
            },
        };
        let limit_operator_type = match record.get_str(5) {
            Ok(v) => v.clone(),
            Err(_) => {
                return Err(StreamError::MalformedRecord);
            },
        };
        let rule_state = match record.get_str(6) {
            Ok(v) => v.clone(),
            Err(_) => {
                return Err(StreamError::MalformedRecord);
            },
        };
        let window_minutes = match record.get_i32(7) {
            Ok(v) => v,
            Err(_) => {
                return Err(StreamError::MalformedRecord);
            },
        };
        let entity = Entity {
            rule_id,
            aggregate_field_name,
            aggregator_function_type,
            grouping_key_names,
            limit,
            limit_operator_type,
            rule_state,
            window_minutes,
        };
        proof {
            assert(entity.field_seq() =~= record@);
            assert(entity == Self::spec_parse(record@));
        }
        Ok(entity)
    }
}

} // verus!
