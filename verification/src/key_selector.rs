//! The dynamic key of the keyed alarm stage: the rule id's digits
//! followed by the rule's grouping key names with their separators
//! removed.

use vstd::prelude::*;
use crate::buffer::FieldValue;
use crate::element::Record;
use crate::entities::{alarm_rule_event, dynamic_key};
use crate::errors::StreamError;
use crate::functions::{Context, FnSchema, KeySelectorFunction, NamedFunction};
use crate::text::{push_u64, push_without_commas, u64_digits, without_commas};

verus! {

/// The partition key a rule/event pair maps to.
pub open spec fn dynamic_key_of(re: alarm_rule_event::Entity) -> Seq<char> {
    u64_digits(re.rule_id as nat) + without_commas(re.grouping_key_names@)
}

/// Derives the dynamic key record from a rule/event record.
#[derive(Debug)]
pub struct DynamicKeySelectorFunction {
    pub opened: bool,
}

impl DynamicKeySelectorFunction {
    pub fn new() -> (f: DynamicKeySelectorFunction)
        ensures
            !f.opened,
    {
        DynamicKeySelectorFunction { opened: false }
    }

    /// Build the key record; fails exactly on a record that does not
    /// fit the rule/event schema.
    pub fn get_key0(&self, record: &Record) -> (r: Result<Record, StreamError>)
        ensures
            r is Ok <==> alarm_rule_event::Entity::matches_schema(record@),
            r is Ok ==> ({
                let re = alarm_rule_event::Entity::spec_parse(record@);
                &&& r->Ok_0@.len() == 1
                &&& r->Ok_0@[0] is Str
                &&& r->Ok_0@[0]->Str_0@ == dynamic_key_of(re)
            }),
            r is Err ==> r == Err::<Record, StreamError>(StreamError::MalformedRecord),
    {
        let rule_event = match alarm_rule_event::Entity::parse(record) {
            Ok(e) => e,
            Err(_) => {
                return Err(StreamError::MalformedRecord);
            },
        };
        let mut key = String::new();
        push_u64(&mut key, rule_event.rule_id as u64);
        push_without_commas(&mut key, rule_event.grouping_key_names.as_str());
        let entity = dynamic_key::Entity { dynamic_key: key };
        Ok(entity.to_record())
    }
}

impl NamedFunction for DynamicKeySelectorFunction {
    fn name(&self) -> &'static str {
        "DynamicKeySelectorFunction"
    }
}

impl KeySelectorFunction for DynamicKeySelectorFunction {
    open spec fn accepts(&self, record: Record) -> bool {
        alarm_rule_event::Entity::matches_schema(record@)
    }

    open spec fn is_key_for(&self, record: Record, key: Record) -> bool {
        &&& alarm_rule_event::Entity::matches_schema(record@)
        &&& key@.len() == 1
        &&& key@[0] is Str
        &&& key@[0]->Str_0@ == dynamic_key_of(alarm_rule_event::Entity::spec_parse(record@))
    }

    fn open(&mut self, _context: &Context) -> Result<(), StreamError> {
        self.opened = true;
        Ok(())
    }

    fn get_key(&self, record: &mut Record) -> Result<Record, StreamError> {
        self.get_key0(record)
    }

    fn close(&mut self) -> Result<(), StreamError> {
        Ok(())
    }

    fn key_schema(&self, _input_schema: FnSchema) -> FnSchema {
        FnSchema::Single(dynamic_key::schema())
    }
}

} // verus!
