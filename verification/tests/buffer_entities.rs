use alarmflow::buffer::{Field, FieldType, FieldValue, Schema};
use alarmflow::element::Record;
use alarmflow::entities::{alarm_event, alarm_rule, alarm_rule_event, alert, cleanup, dynamic_key};
use alarmflow::errors::BufferError;

fn sample_rule_event() -> alarm_rule_event::Entity {
    alarm_rule_event::Entity {
        rule_id: 1,
        rule_state: "ACTIVE".to_string(),
        grouping_key_names: "payeeId,beneficiaryId".to_string(),
        unique: "".to_string(),
        aggregate_field_name: "paymentAmount".to_string(),
        aggregator_function_type: "sum".to_string(),
        limit_operator_type: "GREATER".to_string(),
        limit: 100,
        window_minutes: 1,
        control_type: "".to_string(),
        transaction_id: 7,
        event_time: 1000,
        payee_id: 11,
        beneficiary_id: 12,
        payment_amount: 50,
        payment_type: "card".to_string(),
        ingestion_timestamp: 42,
    }
}

#[test]
fn write_in_order_and_read_back() {
    let mut fields = Vec::new();
    fields.push(Field::new("a".to_string(), FieldType::UInt32));
    fields.push(Field::new("b".to_string(), FieldType::Utf8));
    fields.push(Field::new("c".to_string(), FieldType::Int64));
    let schema = Schema::new(fields);

    let mut record = Record::new();
    assert!(record.write_at(&schema, 0, FieldValue::U32(5)).is_ok());
    assert!(record.write_at(&schema, 1, FieldValue::Str("hi".to_string())).is_ok());
    assert!(record.write_at(&schema, 2, FieldValue::I64(-9)).is_ok());

    assert_eq!(record.get_u32(0).unwrap(), 5);
    assert_eq!(record.get_str(1).unwrap(), "hi");
    assert_eq!(record.get_i64(2).unwrap(), -9);
}

#[test]
fn write_out_of_order_fails_without_mutating() {
    let mut fields = Vec::new();
    fields.push(Field::new("a".to_string(), FieldType::UInt32));
    fields.push(Field::new("b".to_string(), FieldType::Int64));
    let schema = Schema::new(fields);

    let mut record = Record::new();
    // Writing field 1 before field 0 is out of declared order.
    let r = record.write_at(&schema, 1, FieldValue::I64(3));
    assert_eq!(r, Err(BufferError::OutOfOrder));
    assert_eq!(record.len(), 0);

    assert!(record.write_at(&schema, 0, FieldValue::U32(1)).is_ok());
    // Repeating field 0 is also out of order, and mutates nothing.
    let r = record.write_at(&schema, 0, FieldValue::U32(2));
    assert_eq!(r, Err(BufferError::OutOfOrder));
    assert_eq!(record.len(), 1);
    assert_eq!(record.get_u32(0).unwrap(), 1);
}

#[test]
fn write_wrong_type_fails() {
    let mut fields = Vec::new();
    fields.push(Field::new("a".to_string(), FieldType::UInt32));
    let schema = Schema::new(fields);
    let mut record = Record::new();
    let r = record.write_at(&schema, 0, FieldValue::I64(3));
    assert_eq!(r, Err(BufferError::TypeMismatch));
    assert_eq!(record.len(), 0);
}

#[test]
fn rule_event_round_trip() {
    let entity = sample_rule_event();
    let record = entity.to_record();
    let back = alarm_rule_event::Entity::parse(&record).unwrap();
    assert_eq!(back.rule_id, 1);
    assert_eq!(back.rule_state, "ACTIVE");
    assert_eq!(back.grouping_key_names, "payeeId,beneficiaryId");
    assert_eq!(back.unique, "");
    assert_eq!(back.aggregate_field_name, "paymentAmount");
    assert_eq!(back.aggregator_function_type, "sum");
    assert_eq!(back.limit_operator_type, "GREATER");
    assert_eq!(back.limit, 100);
    assert_eq!(back.window_minutes, 1);
    assert_eq!(back.control_type, "");
    assert_eq!(back.transaction_id, 7);
    assert_eq!(back.event_time, 1000);
    assert_eq!(back.payee_id, 11);
    assert_eq!(back.beneficiary_id, 12);
    assert_eq!(back.payment_amount, 50);
    assert_eq!(back.payment_type, "card");
    assert_eq!(back.ingestion_timestamp, 42);
}

#[test]
fn event_and_rule_round_trips() {
    let event = alarm_event::Entity {
        transaction_id: 1,
        event_time: 2,
        payee_id: 3,
        beneficiary_id: 4,
        payment_amount: 5,
        payment_type: "wire".to_string(),
    };
    let back = alarm_event::Entity::parse(&event.to_record()).unwrap();
    assert_eq!(back.payment_amount, 5);
    assert_eq!(back.payment_type, "wire");

    let rule = alarm_rule::Entity {
        rule_id: 9,
        aggregate_field_name: "paymentAmount".to_string(),
        aggregator_function_type: "sum".to_string(),
        grouping_key_names: "payeeId".to_string(),
        limit: 200,
        limit_operator_type: "LESS".to_string(),
        rule_state: "ACTIVE".to_string(),
        window_minutes: 20,
    };
    let back = alarm_rule::Entity::parse(&rule.to_record()).unwrap();
    assert_eq!(back.rule_id, 9);
    assert_eq!(back.limit, 200);
    assert_eq!(back.window_minutes, 20);
}

#[test]
fn small_entity_round_trips() {
    let c = cleanup::Entity { cleanup_time: -5 };
    assert_eq!(cleanup::Entity::parse(&c.to_record()).unwrap(), c);

    let k = dynamic_key::Entity { dynamic_key: "1payeeId".to_string() };
    let back = dynamic_key::Entity::parse(&k.to_record()).unwrap();
    assert_eq!(back.dynamic_key, "1payeeId");

    let a = alert::Entity {
        rule_id: 3,
        violated_rule: "r".to_string(),
        key: "k".to_string(),
        triggering_event: "e".to_string(),
        triggering_value: 120,
    };
    let back = alert::Entity::parse(&a.to_record()).unwrap();
    assert_eq!(back.rule_id, 3);
    assert_eq!(back.triggering_value, 120);
}

#[test]
fn parse_rejects_wrong_shape() {
    let c = cleanup::Entity { cleanup_time: 0 };
    let record = c.to_record();
    // A cleanup record is not a dynamic key record.
    assert!(dynamic_key::Entity::parse(&record).is_err());
    assert!(alarm_rule_event::Entity::parse(&record).is_err());
}
