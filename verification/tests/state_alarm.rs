use alarmflow::agg_state::{KeyedAggState, TimeSeries};
use alarmflow::alert_flatmap::AlertFlatMapFunction;
use alarmflow::alert_keyed::AlertKeyedProcessFunction;
use alarmflow::comparison::{compare, parse_operator, CompareOp};
use alarmflow::entities::{alarm_rule_event, alert, dynamic_key};
use alarmflow::element::Record;
use alarmflow::errors::StreamError;
use alarmflow::functions::{Context, FlatMapFunction, FnSchema};
use alarmflow::checkpoint::TaskId;
use alarmflow::shared_map::{
    shared_evict_below, shared_len, shared_new, shared_push, shared_snapshot,
    snapshot_window_sum,
};

fn rule_event(
    operator: &str,
    state: &str,
    aggregator: &str,
    limit: i64,
    window_minutes: i32,
    event_time: i64,
    amount: i64,
) -> Record {
    alarm_rule_event::Entity {
        rule_id: 1,
        rule_state: state.to_string(),
        grouping_key_names: "payeeId,beneficiaryId".to_string(),
        unique: "".to_string(),
        aggregate_field_name: "paymentAmount".to_string(),
        aggregator_function_type: aggregator.to_string(),
        limit_operator_type: operator.to_string(),
        limit,
        window_minutes,
        control_type: "".to_string(),
        transaction_id: 7,
        event_time,
        payee_id: 11,
        beneficiary_id: 12,
        payment_amount: amount,
        payment_type: "card".to_string(),
        ingestion_timestamp: 0,
    }
    .to_record()
}

fn key_record() -> Record {
    dynamic_key::Entity { dynamic_key: "K".to_string() }.to_record()
}

#[test]
fn comparison_operators_boundary() {
    // GREATER alarms iff aggregate > 100; the boundary must not alarm.
    let op = parse_operator("GREATER").unwrap();
    assert_eq!(op, CompareOp::Greater);
    assert!(!compare(op, 100, 100));
    assert!(compare(op, 101, 100));
    // GREATER_EQUAL at the boundary must alarm.
    let op = parse_operator("greater_equal").unwrap();
    assert!(compare(op, 100, 100));
    // The remaining operators.
    assert!(compare(parse_operator("EQUAL").unwrap(), 100, 100));
    assert!(compare(parse_operator("NOT_EQUAL").unwrap(), 99, 100));
    assert!(compare(parse_operator("LESS").unwrap(), 99, 100));
    assert!(compare(parse_operator("less_equal").unwrap(), 100, 100));
    // An unrecognized name is a fatal error, never a default false.
    assert_eq!(parse_operator("BETWEEN"), Err(StreamError::UnsupportedOperator));
}

#[test]
fn keyed_alarm_scenario() {
    // Insert (t=1000, v=50), (t=1000, v=70), (t=2000, v=10) for key K
    // with window 1 and rule GREATER / limit 100.
    let mut stage = AlertKeyedProcessFunction::new(1);

    let r = stage
        .process_0(key_record(), rule_event("GREATER", "ACTIVE", "sum", 100, 1, 1000, 50))
        .unwrap();
    assert!(r.is_none());

    // At (t=1000) the window is (0, 1000]; the sum 120 exceeds 100.
    let r = stage
        .process_0(key_record(), rule_event("GREATER", "ACTIVE", "sum", 100, 1, 1000, 70))
        .unwrap();
    let alert_record = r.expect("the alarm must fire at sum 120");
    let emitted = alert::Entity::parse(&alert_record).unwrap();
    assert_eq!(emitted.rule_id, 1);
    assert_eq!(emitted.triggering_value, 120);
    assert_eq!(emitted.key, "K");

    // At (t=2000) the window is (1000, 2000]; the sum 10 stays below.
    let r = stage
        .process_0(key_record(), rule_event("GREATER", "ACTIVE", "sum", 100, 1, 2000, 10))
        .unwrap();
    assert!(r.is_none());
}

#[test]
fn inactive_rule_skips_evaluation() {
    let mut stage = AlertKeyedProcessFunction::new(1);
    let r = stage
        .process_0(key_record(), rule_event("GREATER", "PAUSED", "sum", 0, 1, 1000, 500))
        .unwrap();
    assert!(r.is_none());
}

#[test]
fn unsupported_aggregator_is_fatal() {
    let mut stage = AlertKeyedProcessFunction::new(1);
    let r = stage.process_0(key_record(), rule_event("GREATER", "ACTIVE", "max", 0, 1, 1000, 1));
    assert!(matches!(r, Err(StreamError::UnsupportedAggregator)));
}

#[test]
fn unsupported_operator_is_fatal() {
    let mut stage = AlertKeyedProcessFunction::new(1);
    let r = stage.process_0(key_record(), rule_event("SOMETIMES", "ACTIVE", "sum", 0, 1, 1000, 1));
    assert!(matches!(r, Err(StreamError::UnsupportedOperator)));
}

#[test]
fn malformed_record_is_rejected() {
    let mut stage = AlertKeyedProcessFunction::new(1);
    let r = stage.process_0(key_record(), key_record());
    assert!(matches!(r, Err(StreamError::MalformedRecord)));
}

#[test]
fn eviction_is_idempotent() {
    let mut state = KeyedAggState::new();
    let key = "K".to_string();
    state.insert(&key, 1000, 50);
    state.insert(&key, 2000, 70);
    state.insert(&key, 5000, 10);
    state.observe_window(1000);

    // First pass: the high-water mark is 5000 - 1000 = 4000, so the
    // buckets at 1000 and 2000 go; the one at 5000 stays.
    state.evict_pass();
    assert_eq!(state.key_count(), 1);
    assert_eq!(state.count_buckets(), 1);

    // Second pass with no new inserts removes nothing.
    state.evict_pass();
    assert_eq!(state.key_count(), 1);
    assert_eq!(state.count_buckets(), 1);
}

#[test]
fn eviction_drops_emptied_keys() {
    let mut state = KeyedAggState::new();
    let stale = "old".to_string();
    let fresh = "new".to_string();
    state.insert(&stale, 100, 1);
    state.insert(&fresh, 10_000, 2);
    state.observe_window(1000);
    state.evict_pass();
    // Threshold 9000: the stale key's only bucket goes, and the key
    // with it; the fresh key survives.
    assert_eq!(state.key_count(), 1);
    assert_eq!(state.window_sum_checked(&fresh, 9_000, 10_000), Some(2));
    assert_eq!(state.window_sum_checked(&stale, 0, 10_000), Some(0));
}

#[test]
fn window_sum_respects_bounds() {
    let mut series = TimeSeries::new();
    series.insert(1000, 50);
    series.insert(1000, 70);
    series.insert(2000, 10);
    // The window (0, 1000] holds 120; (1000, 2000] holds 10.
    assert_eq!(series.window_sum_checked(0, 1000), Some(120));
    assert_eq!(series.window_sum_checked(1000, 2000), Some(10));
    assert_eq!(series.window_sum_checked(0, 2000), Some(130));
    assert_eq!(series.window_sum_checked(2000, 3000), Some(0));
}

#[test]
fn flatmap_alarm_scenario() {
    let mut stage = AlertFlatMapFunction::new();
    let context = Context::new(TaskId::default(), 1, FnSchema::Empty);
    stage.open(&context).unwrap();

    let out = stage
        .flat_map0(rule_event("GREATER", "ACTIVE", "sum", 100, 1, 1000, 50))
        .unwrap();
    assert_eq!(out.len(), 0);

    let out = stage
        .flat_map0(rule_event("GREATER", "ACTIVE", "sum", 100, 1, 1000, 70))
        .unwrap();
    assert_eq!(out.len(), 1);
    let emitted = alert::Entity::parse(&out[0]).unwrap();
    assert_eq!(emitted.triggering_value, 120);

    // Each full evaluation produced one cleanup signal.
    assert_eq!(stage.handover.as_ref().unwrap().len(), 2);
}

#[test]
fn alert_flatmap_function_test() {
    // Three inserts into the time map: two at 1000, one at 2000.
    let mut map = TimeSeries::new();
    map.insert(1000, 1000);
    map.insert(1000, 1000);
    map.insert(2000, 1000);
    let mut i: i64 = 0;
    if let Some(sum) = map.window_sum_checked(100, 2000) {
        i = sum;
    }
    assert_eq!(i, 3000);
    println!("map size: {}", map.bucket_count());
}

#[test]
fn alert_keyed_process_function_test() {
    let mut map = KeyedAggState::new();
    let key = "1000".to_string();
    map.insert(&key, 1000, 1000);
    map.insert(&key, 1000, 1000);
    map.insert(&key, 2000, 1000);
    let sum = map.window_sum_checked(&key, 100, 2000).unwrap();
    assert_eq!(sum, 3000);
    println!("map size: {}", map.key_count());
}

#[test]
fn shared_map_window_and_eviction() {
    let mut map = shared_new();
    shared_push(&mut map, 1000, 50);
    shared_push(&mut map, 1000, 70);
    shared_push(&mut map, 2000, 10);
    assert_eq!(shared_len(&map), 2);

    let snapshot = shared_snapshot(&map);
    assert_eq!(snapshot_window_sum(&snapshot, 0, 1000), Some(120));
    assert_eq!(snapshot_window_sum(&snapshot, 0, 2000), Some(130));
    assert_eq!(snapshot_window_sum(&snapshot, 1000, 2000), Some(10));

    // Evict at or below 1000: only the bucket at 2000 survives.
    let removed = shared_evict_below(&mut map, 1000);
    assert_eq!(removed, 1);
    assert_eq!(shared_len(&map), 1);
    let snapshot = shared_snapshot(&map);
    assert_eq!(snapshot_window_sum(&snapshot, 0, 5000), Some(10));
}
