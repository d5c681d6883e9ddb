//! An incoming payment event, decoded from the event stream.
//! The payment amount is carried in integer minor units.

use vstd::prelude::*;
use crate::buffer::{Field, FieldType, FieldValue, Schema};
use crate::element::Record;
use crate::errors::StreamError;

verus! {

/// The declared fields, in order.
pub open spec fn spec_field_types() -> Seq<FieldType> {
    seq![
        FieldType::Int64,
        FieldType::Int64,
        FieldType::Int64,
        FieldType::Int64,
        FieldType::Int64,
        FieldType::Utf8,
    ]
}

/// The declared schema of this entity.
pub fn schema() -> (s: Schema)
    ensures
        s@.len() == spec_field_types().len(),
        forall|i: int| 0 <= i < s@.len() ==> s@[i].field_type == spec_field_types()[i],
{
    let mut fields: Vec<Field> = Vec::new();
    fields.push(Field::new(String::from_str("transactionId"), FieldType::Int64));
    fields.push(Field::new(String::from_str("eventTime"), FieldType::Int64));
    fields.push(Field::new(String::from_str("payeeId"), FieldType::Int64));
    fields.push(Field::new(String::from_str("beneficiaryId"), FieldType::Int64));
    fields.push(Field::new(String::from_str("paymentAmount"), FieldType::Int64));
    fields.push(Field::new(String::from_str("paymentType"), FieldType::Utf8));
    Schema::new(fields)
}

#[derive(Clone, Debug)]
pub struct Entity {
    pub transaction_id: i64,
    pub event_time: i64,
    pub payee_id: i64,
    pub beneficiary_id: i64,
    pub payment_amount: i64,
    pub payment_type: String,
}

impl Entity {
    /// The field values this entity writes, in declared order.
    pub open spec fn field_seq(self) -> Seq<FieldValue> {
        seq![
            FieldValue::I64(self.transaction_id),
            FieldValue::I64(self.event_time),
            FieldValue::I64(self.payee_id),
            FieldValue::I64(self.beneficiary_id),
            FieldValue::I64(self.payment_amount),
            FieldValue::Str(self.payment_type),
        ]
    }

    /// Whether a record's fields fit this schema.
    pub open spec fn matches_schema(fields: Seq<FieldValue>) -> bool {
        fields.len() == 6
            && fields[0] is I64
            && fields[1] is I64
            && fields[2] is I64
            && fields[3] is I64
            && fields[4] is I64
            && fields[5] is Str
    }

    /// The entity a record of this schema carries, field by field.
    pub open spec fn spec_parse(fields: Seq<FieldValue>) -> Entity {
        Entity {
            transaction_id: fields[0]->I64_0,
            event_time: fields[1]->I64_0,
            payee_id: fields[2]->I64_0,
            beneficiary_id: fields[3]->I64_0,
            payment_amount: fields[4]->I64_0,
            payment_type: fields[5]->Str_0,
        }
    }


    /// Round trip: the record an entity writes fits the schema and
    /// reads back as exactly the same entity, field for field.
    pub proof fn lemma_round_trip(e: Entity)
        ensures
            Entity::matches_schema(e.field_seq()),
            Entity::spec_parse(e.field_seq()) == e,
    {
    }

    pub fn to_record(&self) -> (r: Record)
        ensures
            r@ == self.field_seq(),
    {
        let mut record = Record::new();
        record.buffer.fields.push(FieldValue::I64(self.transaction_id));
        record.buffer.fields.push(FieldValue::I64(self.event_time));
        record.buffer.fields.push(FieldValue::I64(self.payee_id));
        record.buffer.fields.push(FieldValue::I64(self.beneficiary_id));
        record.buffer.fields.push(FieldValue::I64(self.payment_amount));
        record.buffer.fields.push(FieldValue::Str(self.payment_type.clone()));
        proof {
            assert(record@ =~= self.field_seq());
        }
        record
    }

    /// Read an entity back; fails exactly on a record that does not fit
    /// the schema.
    pub fn parse(record: &Record) -> (r: Result<Entity, StreamError>)
        ensures
            r is Ok <==> Self::matches_schema(record@),
            r is Ok ==> r->Ok_0.field_seq() == record@,
            r is Ok ==> r->Ok_0 == Self::spec_parse(record@),
    {
        if record.len() != 6 {
            return Err(StreamError::MalformedRecord);
        }
        let transaction_id = match record.get_i64(0) {
            Ok(v) => v,
            Err(_) => {
                return Err(StreamError::MalformedRecord);
            },
        };
        let event_time = match record.get_i64(1) {
            Ok(v) => v,
            Err(_) => {
                return Err(StreamError::MalformedRecord);
            },
        };
        let payee_id = match record.get_i64(2) {
            Ok(v) => v,
            Err(_) => {
                return Err(StreamError::MalformedRecord);
            },
        };
        let beneficiary_id = match record.get_i64(3) {
            Ok(v) => v,
            Err(_) => {
                return Err(StreamError::MalformedRecord);
            },
        };
        let payment_amount = match record.get_i64(4) {
            Ok(v) => v,
            Err(_) => {
                return Err(StreamError::MalformedRecord);
            },
        };
        let payment_type = match record.get_str(5) {
            Ok(v) => v.clone(),
            Err(_) => {
                return Err(StreamError::MalformedRecord);
            },
        };
        let entity = Entity {
            transaction_id,
            event_time,
            payee_id,
            beneficiary_id,
            payment_amount,
            payment_type,
        };
        proof {
            assert(entity.field_seq() =~= record@);
            assert(entity == Self::spec_parse(record@));
        }
        Ok(entity)
    }
}

} // verus!
