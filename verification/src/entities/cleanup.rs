//! The cleanup signal handed to the background eviction task: the time
//! threshold at or below which buckets may be discarded.

use vstd::prelude::*;
use crate::buffer::{Field, FieldType, FieldValue, Schema};
use crate::element::Record;
use crate::errors::StreamError;

verus! {

/// The declared fields, in order.
pub open spec fn spec_field_types() -> Seq<FieldType> {
    seq![FieldType::Int64]
}

/// The schema: `(cleanup_time: i64)`.
pub fn schema() -> (s: Schema)
    ensures
        s@.len() == spec_field_types().len(),
        forall|i: int| 0 <= i < s@.len() ==> s@[i].field_type == spec_field_types()[i],
{
    let mut fields: Vec<Field> = Vec::new();
    fields.push(Field::new(String::from_str("cleanup_time"), FieldType::Int64));
    Schema::new(fields)
}

#[derive(Clone, Debug, PartialEq, Eq, Structural)]
pub struct Entity {
    pub cleanup_time: i64,
}

impl Entity {
    /// The field values this entity writes, in declared order.
    pub open spec fn field_seq(self) -> Seq<FieldValue> {
        seq![FieldValue::I64(self.cleanup_time)]
    }

    /// Whether a record's fields fit this schema.
    pub open spec fn matches_schema(fields: Seq<FieldValue>) -> bool {
        fields.len() == 1 && fields[0] is I64
    }

    /// The entity a record of this schema carries, field by field.
    pub open spec fn spec_parse(fields: Seq<FieldValue>) -> Entity {
        Entity {
            cleanup_time: fields[0]->I64_0,
        }
    }


    /// Round trip: the record an entity writes fits the schema and
    /// reads back as exactly the same entity, field for field.
    pub proof fn lemma_round_trip(e: Entity)
        ensures
            Entity::matches_schema(e.field_seq()),
            Entity::spec_parse(e.field_seq()) == e,
    {
    }

    pub fn to_record(&self) -> (r: Record)
        ensures
            r@ == self.field_seq(),
    {
        let mut record = Record::new();
        record.buffer.fields.push(FieldValue::I64(self.cleanup_time));
        proof {
            assert(record@ =~= self.field_seq());
        }
        record
    }

    /// Read an entity back; fails exactly on a record that does not fit
    /// the schema.
    pub fn parse(record: &Record) -> (r: Result<Entity, StreamError>)
        ensures
            r is Ok <==> Self::matches_schema(record@),
            r is Ok ==> r->Ok_0.field_seq() == record@,
            r is Ok ==> r->Ok_0 == Self::spec_parse(record@),
    {
        if record.len() != 1 {
            return Err(StreamError::MalformedRecord);
        }
        let cleanup_time = match record.get_i64(0) {
            Ok(v) => v,
            Err(_) => {
                return Err(StreamError::MalformedRecord);
            },
        };
        let entity = Entity { cleanup_time };
        proof {
            assert(entity.field_seq() =~= record@);
            assert(entity == Self::spec_parse(record@));
        }
        Ok(entity)
    }
}

} // verus!
