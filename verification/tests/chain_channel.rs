use alarmflow::alert_keyed::AlertKeyedProcessFunction;
use alarmflow::checkpoint::{KeyedProcessCheckpointHandle, OperatorId};
use alarmflow::element::{Barrier, Element, Record};
use alarmflow::entities::cleanup;
use alarmflow::errors::{ChannelError, StreamError};
use alarmflow::handover::Handover;
use alarmflow::key_selector::DynamicKeySelectorFunction;
use alarmflow::runnable::{KeyedProcessRunnable, RunnableContext, SinkCollectRunnable};
use alarmflow::checkpoint::TaskId;

fn tagged_record(tag: i64) -> Record {
    cleanup::Entity { cleanup_time: tag }.to_record()
}

fn tag_of(record: &Record) -> i64 {
    cleanup::Entity::parse(record).unwrap().cleanup_time
}

#[test]
fn handover_under_load_is_fifo() {
    // Produce 10 items into a channel of capacity 3 while draining
    // concurrently: every item arrives, exactly once, in order.
    let total: i64 = 10;
    let mut channel = Handover::new("test".to_string(), 3);
    let mut delivered: Vec<i64> = Vec::new();
    let mut next: i64 = 0;
    while (delivered.len() as i64) < total {
        if next < total {
            match channel.produce(tagged_record(next)) {
                Ok(()) => {
                    next += 1;
                    continue;
                }
                Err(ChannelError::Full) => {}
                Err(e) => panic!("unexpected produce failure: {:?}", e),
            }
        }
        match channel.try_poll_next() {
            Ok(record) => delivered.push(tag_of(&record)),
            Err(ChannelError::Empty) => {}
            Err(e) => panic!("unexpected poll failure: {:?}", e),
        }
    }
    assert_eq!(delivered.len(), 10);
    for (i, tag) in delivered.iter().enumerate() {
        assert_eq!(*tag, i as i64);
    }
    assert_eq!(channel.len(), 0);
}

#[test]
fn closed_channel_reports_shutdown() {
    let mut channel = Handover::new("test".to_string(), 2);
    channel.produce(tagged_record(1)).unwrap();
    channel.close();
    assert_eq!(channel.produce(tagged_record(2)), Err(ChannelError::Closed));
    // What was queued before the close still drains.
    assert!(channel.try_poll_next().is_ok());
    assert_eq!(channel.try_poll_next().map(|r| tag_of(&r)), Err(ChannelError::Closed));
}

#[test]
fn unbounded_channel_never_fills() {
    let mut channel = Handover::new_unbounded("test".to_string());
    for i in 0..100 {
        channel.produce(tagged_record(i)).unwrap();
    }
    assert_eq!(channel.len(), 100);
}

fn chain() -> KeyedProcessRunnable<
    DynamicKeySelectorFunction,
    AlertKeyedProcessFunction,
    SinkCollectRunnable,
> {
    KeyedProcessRunnable::new(
        OperatorId(1),
        Some(DynamicKeySelectorFunction::new()),
        AlertKeyedProcessFunction::new(1),
        Some(SinkCollectRunnable::new()),
    )
}

#[test]
fn barriers_must_strictly_increase() {
    let mut runnable = chain();
    let context = RunnableContext::new(TaskId::default(), 1);
    runnable.open_chain(&context).unwrap();

    assert!(runnable.run_element(Element::from_barrier(Barrier::new(1))).is_ok());
    assert!(runnable.run_element(Element::from_barrier(Barrier::new(2))).is_ok());
    // A repeated id is a protocol violation.
    assert_eq!(
        runnable.run_element(Element::from_barrier(Barrier::new(2))),
        Err(StreamError::BarrierOutOfOrder)
    );
    // A decreasing id as well.
    assert_eq!(
        runnable.run_element(Element::from_barrier(Barrier::new(1))),
        Err(StreamError::BarrierOutOfOrder)
    );
    // Only the two accepted barriers were snapshotted, in order.
    let submitted = runnable.drain_checkpoints();
    assert_eq!(submitted.len(), 2);
    assert_eq!(submitted[0].checkpoint_id, 1);
    assert_eq!(submitted[1].checkpoint_id, 2);
    // The completed id always comes from the handle itself.
    assert_eq!(submitted[0].completed_checkpoint_id, Some(1));
    assert_eq!(submitted[1].completed_checkpoint_id, Some(2));
    // Accepted barriers were forwarded downstream; rejected ones not.
    let sink = runnable.next_runnable.as_ref().unwrap();
    assert_eq!(sink.collected.len(), 2);
}

#[test]
fn records_flow_and_count() {
    let mut runnable = chain();
    let context = RunnableContext::new(TaskId::default(), 1);
    runnable.open_chain(&context).unwrap();

    let record = alarmflow::entities::alarm_rule_event::Entity {
        rule_id: 1,
        rule_state: "ACTIVE".to_string(),
        grouping_key_names: "payeeId".to_string(),
        unique: "".to_string(),
        aggregate_field_name: "paymentAmount".to_string(),
        aggregator_function_type: "sum".to_string(),
        limit_operator_type: "GREATER".to_string(),
        limit: 100,
        window_minutes: 1,
        control_type: "".to_string(),
        transaction_id: 7,
        event_time: 1000,
        payee_id: 11,
        beneficiary_id: 12,
        payment_amount: 50,
        payment_type: "card".to_string(),
        ingestion_timestamp: 0,
    }
    .to_record();
    runnable.run_element(Element::from_record(record)).unwrap();
    assert_eq!(runnable.counter.get(), 1);
    // The first event's sum stays below the limit: no output continued.
    assert_eq!(runnable.next_runnable.as_ref().unwrap().collected.len(), 0);

    // A second event pushes the window sum to 120 > 100: the keyed
    // function's alert continues the chain to the sink.
    let record = alarmflow::entities::alarm_rule_event::Entity {
        rule_id: 1,
        rule_state: "ACTIVE".to_string(),
        grouping_key_names: "payeeId".to_string(),
        unique: "".to_string(),
        aggregate_field_name: "paymentAmount".to_string(),
        aggregator_function_type: "sum".to_string(),
        limit_operator_type: "GREATER".to_string(),
        limit: 100,
        window_minutes: 1,
        control_type: "".to_string(),
        transaction_id: 8,
        event_time: 1000,
        payee_id: 11,
        beneficiary_id: 12,
        payment_amount: 70,
        payment_type: "card".to_string(),
        ingestion_timestamp: 0,
    }
    .to_record();
    runnable.run_element(Element::from_record(record)).unwrap();
    assert_eq!(runnable.counter.get(), 2);
    let sink = runnable.next_runnable.as_ref().unwrap();
    assert_eq!(sink.collected.len(), 1);
    match &sink.collected[0] {
        Element::Record(forwarded) => {
            let emitted = alarmflow::entities::alert::Entity::parse(forwarded).unwrap();
            assert_eq!(emitted.triggering_value, 120);
        }
        other => panic!("expected the forwarded alert record, got {:?}", other),
    }
}

#[test]
fn chain_opens_and_closes_in_order() {
    let mut runnable = chain();
    let context = RunnableContext::new(TaskId::default(), 1);
    runnable.open_chain(&context).unwrap();
    assert!(runnable.opened);
    assert!(runnable.next_runnable.as_ref().unwrap().opened);
    assert_eq!(runnable.counter.get(), 0);
    assert!(runnable.counter.name.starts_with("KeyedReduce_"));

    runnable.close_chain().unwrap();
    assert!(runnable.shut);
    assert!(runnable.next_runnable.as_ref().unwrap().shut);
}

#[test]
fn checkpoint_handle_round_trip() {
    let handle = KeyedProcessCheckpointHandle::new(Some(17));
    let token = handle.encode();
    assert_eq!(token, "{\"c_ck\":17}");
    assert_eq!(KeyedProcessCheckpointHandle::decode(&token), Ok(handle));

    let none_handle = KeyedProcessCheckpointHandle::new(None);
    let token = none_handle.encode();
    assert_eq!(token, "{\"c_ck\":null}");
    assert_eq!(KeyedProcessCheckpointHandle::decode(&token), Ok(none_handle));
}

#[test]
fn checkpoint_handle_decode_cases() {
    // An empty token and a legacy list-shaped token mean: nothing
    // completed yet.
    assert_eq!(
        KeyedProcessCheckpointHandle::decode("").unwrap().completed_checkpoint_id,
        None
    );
    assert_eq!(
        KeyedProcessCheckpointHandle::decode("[1,2]").unwrap().completed_checkpoint_id,
        None
    );
    // Anything else malformed is an error, never a silent default.
    assert_eq!(
        KeyedProcessCheckpointHandle::decode("{\"c_ck\":abc}"),
        Err(StreamError::MalformedHandle)
    );
    assert_eq!(
        KeyedProcessCheckpointHandle::decode("nonsense"),
        Err(StreamError::MalformedHandle)
    );
}
