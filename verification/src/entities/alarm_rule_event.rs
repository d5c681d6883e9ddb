//! One rule joined with one payment event: the unit of work of the
//! keyed alarm evaluation.
//! The limit and the payment amount are carried in integer minor units.

use vstd::prelude::*;
use crate::buffer::{Field, FieldType, FieldValue, Schema};
use crate::element::Record;
use crate::errors::StreamError;

verus! {

/// The declared fields, in order.
pub open spec fn spec_field_types() -> Seq<FieldType> {
    seq![
        FieldType::UInt32,
        FieldType::Utf8,
        FieldType::Utf8,
        FieldType::Utf8,
        FieldType::Utf8,
        FieldType::Utf8,
        FieldType::Utf8,
        FieldType::Int64,
        FieldType::Int32,
        FieldType::Utf8,
        FieldType::Int64,
        FieldType::Int64,
        FieldType::Int64,
        FieldType::Int64,
        FieldType::Int64,
        FieldType::Utf8,
        FieldType::UInt64,
    ]
}

/// The declared schema of this entity.
pub fn schema() -> (s: Schema)
    ensures
        s@.len() == spec_field_types().len(),
        forall|i: int| 0 <= i < s@.len() ==> s@[i].field_type == spec_field_types()[i],
{
    let mut fields: Vec<Field> = Vec::new();
    fields.push(Field::new(String::from_str("ruleId"), FieldType::UInt32));
    fields.push(Field::new(String::from_str("ruleState"), FieldType::Utf8));
    fields.push(Field::new(String::from_str("groupingKeyNames"), FieldType::Utf8));
    fields.push(Field::new(String::from_str("unique"), FieldType::Utf8));
    fields.push(Field::new(String::from_str("aggregateFieldName"), FieldType::Utf8));
    fields.push(Field::new(String::from_str("aggregatorFunctionType"), FieldType::Utf8));
    fields.push(Field::new(String::from_str("limitOperatorType"), FieldType::Utf8));
    fields.push(Field::new(String::from_str("limit"), FieldType::Int64));
    fields.push(Field::new(String::from_str("windowMinutes"), FieldType::Int32));
    fields.push(Field::new(String::from_str("controlType"), FieldType::Utf8));
    fields.push(Field::new(String::from_str("transactionId"), FieldType::Int64));
    fields.push(Field::new(String::from_str("eventTime"), FieldType::Int64));
    fields.push(Field::new(String::from_str("payeeId"), FieldType::Int64));
    fields.push(Field::new(String::from_str("beneficiaryId"), FieldType::Int64));
    fields.push(Field::new(String::from_str("paymentAmount"), FieldType::Int64));
    fields.push(Field::new(String::from_str("paymentType"), FieldType::Utf8));
    fields.push(Field::new(String::from_str("ingestionTimestamp"), FieldType::UInt64));
    Schema::new(fields)
}

#[derive(Clone, Debug)]
pub struct Entity {
    pub rule_id: u32,
    pub rule_state: String,
    pub grouping_key_names: String,
    pub unique: String,
    pub aggregate_field_name: String,
    pub aggregator_function_type: String,
    pub limit_operator_type: String,
    pub limit: i64,
    pub window_minutes: i32,
    pub control_type: String,
    pub transaction_id: i64,
    pub event_time: i64,
    pub payee_id: i64,
    pub beneficiary_id: i64,
    pub payment_amount: i64,
    pub payment_type: String,
    pub ingestion_timestamp: u64,
}

impl Entity {
    /// The field values this entity writes, in declared order.
    pub open spec fn field_seq(self) -> Seq<FieldValue> {
        seq![
            FieldValue::U32(self.rule_id),
            FieldValue::Str(self.rule_state),
            FieldValue::Str(self.grouping_key_names),
            FieldValue::Str(self.unique),
            FieldValue::Str(self.aggregate_field_name),
            FieldValue::Str(self.aggregator_function_type),
            FieldValue::Str(self.limit_operator_type),
            FieldValue::I64(self.limit),
            FieldValue::I32(self.window_minutes),
            FieldValue::Str(self.control_type),
            FieldValue::I64(self.transaction_id),
            FieldValue::I64(self.event_time),
            FieldValue::I64(self.payee_id),
            FieldValue::I64(self.beneficiary_id),
            FieldValue::I64(self.payment_amount),
            FieldValue::Str(self.payment_type),
            FieldValue::U64(self.ingestion_timestamp),
        ]
    }

    /// Whether a record's fields fit this schema.
    pub open spec fn matches_schema(fields: Seq<FieldValue>) -> bool {
        fields.len() == 17
            && fields[0] is U32
            && fields[1] is Str
            && fields[2] is Str
            && fields[3] is Str
            && fields[4] is Str
            && fields[5] is Str
            && fields[6] is Str
            && fields[7] is I64
            && fields[8] is I32
            && fields[9] is Str
            && fields[10] is I64
            && fields[11] is I64
            && fields[12] is I64
            && fields[13] is I64
            && fields[14] is I64
            && fields[15] is Str
            && fields[16] is U64
    }

    /// The entity a record of this schema carries, field by field.
    pub open spec fn spec_parse(fields: Seq<FieldValue>) -> Entity {
        Entity {
            rule_id: fields[0]->U32_0,
            rule_state: fields[1]->Str_0,
            grouping_key_names: fields[2]->Str_0,
            unique: fields[3]->Str_0,
            aggregate_field_name: fields[4]->Str_0,
            aggregator_function_type: fields[5]->Str_0,
            limit_operator_type: fields[6]->Str_0,
            limit: fields[7]->I64_0,
            window_minutes: fields[8]->I32_0,
            control_type: fields[9]->Str_0,
            transaction_id: fields[10]->I64_0,
            event_time: fields[11]->I64_0,
            payee_id: fields[12]->I64_0,
            beneficiary_id: fields[13]->I64_0,
            payment_amount: fields[14]->I64_0,
            payment_type: fields[15]->Str_0,
            ingestion_timestamp: fields[16]->U64_0,
        }
    }


    /// Round trip: the record an entity writes fits the schema and
    /// reads back as exactly the same entity, field for field.
    pub proof fn lemma_round_trip(e: Entity)
        ensures
            Entity::matches_schema(e.field_seq()),
            Entity::spec_parse(e.field_seq()) == e,
    {
    }

    pub fn to_record(&self) -> (r: Record)
        ensures
            r@ == self.field_seq(),
    {
        let mut record = Record::new();
        record.buffer.fields.push(FieldValue::U32(self.rule_id));
        record.buffer.fields.push(FieldValue::Str(self.rule_state.clone()));
        record.buffer.fields.push(FieldValue::Str(self.grouping_key_names.clone()));
        record.buffer.fields.push(FieldValue::Str(self.unique.clone()));
        record.buffer.fields.push(FieldValue::Str(self.aggregate_field_name.clone()));
        record.buffer.fields.push(FieldValue::Str(self.aggregator_function_type.clone()));
        record.buffer.fields.push(FieldValue::Str(self.limit_operator_type.clone()));
        record.buffer.fields.push(FieldValue::I64(self.limit));
        record.buffer.fields.push(FieldValue::I32(self.window_minutes));
        record.buffer.fields.push(FieldValue::Str(self.control_type.clone()));
        record.buffer.fields.push(FieldValue::I64(self.transaction_id));
        record.buffer.fields.push(FieldValue::I64(self.event_time));
        record.buffer.fields.push(FieldValue::I64(self.payee_id));
        record.buffer.fields.push(FieldValue::I64(self.beneficiary_id));
        record.buffer.fields.push(FieldValue::I64(self.payment_amount));
        record.buffer.fields.push(FieldValue::Str(self.payment_type.clone()));
        record.buffer.fields.push(FieldValue::U64(self.ingestion_timestamp));
        proof {
            assert(record@ =~= self.field_seq());
        }
        record
    }

    /// Read an entity back; fails exactly on a record that does not fit
    /// the schema.
    pub fn parse(record: &Record) -> (r: Result<Entity, StreamError>)
        ensures
            r is Ok <==> Self::matches_schema(record@),
            r is Ok ==> r->Ok_0.field_seq() == record@,
            r is Ok ==> r->Ok_0 == Self::spec_parse(record@),
    {
        if record.len() != 17 {
            return Err(StreamError::MalformedRecord);
        }
        let rule_id = match record.get_u32(0) {
            Ok(v) => v,
            Err(_) => {
                return Err(StreamError::MalformedRecord);
            },
        };
        let rule_state = match record.get_str(1) {
            Ok(v) => v.clone(),
            Err(_) => {
                return Err(StreamError::MalformedRecord);
            },
        };
        let grouping_key_names = match record.get_str(2) {
            Ok(v) => v.clone(),
            Err(_) => {
                return Err(StreamError::MalformedRecord);
            },
        };
        let unique = match record.get_str(3) {
            Ok(v) => v.clone(),
            Err(_) => {
                return Err(StreamError::MalformedRecord);
            },
        };
        let aggregate_field_name = match record.get_str(4) {
            Ok(v) => v.clone(),
            Err(_) => {
                return Err(StreamError::MalformedRecord);
            },
        };
        let aggregator_function_type = match record.get_str(5) {
            Ok(v) => v.clone(),
            Err(_) => {
                return Err(StreamError::MalformedRecord);
            },
        };
        let limit_operator_type = match record.get_str(6) {
            Ok(v) => v.clone(),
            Err(_) => {
                return Err(StreamError::MalformedRecord);
            },
        };
        let limit = match record.get_i64(7) {
            Ok(v) => v,
            Err(_) => {
                return Err(StreamError::MalformedRecord);
            },
        };
        let window_minutes = match record.get_i32(8) {
            Ok(v) => v,
            Err(_) => {
                return Err(StreamError::MalformedRecord);
            },
        };
        let control_type = match record.get_str(9) {
            Ok(v) => v.clone(),
            Err(_) => {
                return Err(StreamError::MalformedRecord);
            },
        };
        let transaction_id = match record.get_i64(10) {
            Ok(v) => v,
            Err(_) => {
                return Err(StreamError::MalformedRecord);
            },
        };
        let event_time = match record.get_i64(11) {
            Ok(v) => v,
            Err(_) => {
                return Err(StreamError::MalformedRecord);
            },
        };
        let payee_id = match record.get_i64(12) {
            Ok(v) => v,
            Err(_) => {
                return Err(StreamError::MalformedRecord);
            },
        };
        let beneficiary_id = match record.get_i64(13) {
            Ok(v) => v,
            Err(_) => {
                return Err(StreamError::MalformedRecord);
            },
        };
        let payment_amount = match record.get_i64(14) {
            Ok(v) => v,
            Err(_) => {
                return Err(StreamError::MalformedRecord);
            },
        };
        let payment_type = match record.get_str(15) {
            Ok(v) => v.clone(),
            Err(_) => {
                return Err(StreamError::MalformedRecord);
            },
        };
        let ingestion_timestamp = match record.get_u64(16) {
            Ok(v) => v,
            Err(_) => {
                return Err(StreamError::MalformedRecord);
            },
        };
        let entity = Entity {
            rule_id,
            rule_state,
            grouping_key_names,
            unique,
            aggregate_field_name,
            aggregator_function_type,
            limit_operator_type,
            limit,
            window_minutes,
            control_type,
            transaction_id,
            event_time,
            payee_id,
            beneficiary_id,
            payment_amount,
            payment_type,
            ingestion_timestamp,
        };
        proof {
            assert(entity.field_seq() =~= record@);
            assert(entity == Self::spec_parse(record@));
        }
        Ok(entity)
    }
}

} // verus!
