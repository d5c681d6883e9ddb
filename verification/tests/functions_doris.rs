use alarmflow::checkpoint::TaskId;
use alarmflow::coprocess::RuleCoProcessFunction;
use alarmflow::doris::{
    build_stream_load_url, format_backend, random_endpoint, render_csv, DorisConfigOptionBuilder,
    LoadRequest, RespContent, SinkFormat,
};
use alarmflow::doris_sink::DorisSink;
use alarmflow::element::Record;
use alarmflow::entities::{alarm_event, alarm_rule, alarm_rule_event, cleanup};
use alarmflow::errors::{ChannelError, StreamError};
use alarmflow::event_fn::{BroadcastSerdeFlatMapFunction, EventFlatMapFunction};
use alarmflow::functions::{Context, FlatMapFunction, FnSchema};
use alarmflow::handover::Handover;
use alarmflow::key_selector::DynamicKeySelectorFunction;
use alarmflow::alert_flatmap::CleanUpTask;
use alarmflow::agg_state::TimeSeries;
use alarmflow::metrics::{register_counter, Tag};
use alarmflow::text::{parse_u64, render_i64, render_u64};
use alarmflow::accumulator::{Accumulator, SumAccumulator};

fn sample_rule() -> alarm_rule::Entity {
    alarm_rule::Entity {
        rule_id: 4,
        aggregate_field_name: "paymentAmount".to_string(),
        aggregator_function_type: "sum".to_string(),
        grouping_key_names: "payeeId,beneficiaryId".to_string(),
        limit: 100,
        limit_operator_type: "GREATER".to_string(),
        rule_state: "ACTIVE".to_string(),
        window_minutes: 2,
    }
}

fn sample_event() -> alarm_event::Entity {
    alarm_event::Entity {
        transaction_id: 9,
        event_time: 500,
        payee_id: 1,
        beneficiary_id: 2,
        payment_amount: 33,
        payment_type: "card".to_string(),
    }
}

#[test]
fn dynamic_key_concatenates_rule_id_and_names() {
    let selector = DynamicKeySelectorFunction::new();
    let record = alarm_rule_event::Entity {
        rule_id: 17,
        rule_state: "ACTIVE".to_string(),
        grouping_key_names: "payeeId,beneficiaryId".to_string(),
        unique: "".to_string(),
        aggregate_field_name: "paymentAmount".to_string(),
        aggregator_function_type: "sum".to_string(),
        limit_operator_type: "GREATER".to_string(),
        limit: 1,
        window_minutes: 1,
        control_type: "".to_string(),
        transaction_id: 0,
        event_time: 0,
        payee_id: 0,
        beneficiary_id: 0,
        payment_amount: 0,
        payment_type: "".to_string(),
        ingestion_timestamp: 0,
    }
    .to_record();
    let key = selector.get_key0(&record).unwrap();
    assert_eq!(key.get_str(0).unwrap(), "17payeeIdbeneficiaryId");
}

#[test]
fn coprocess_joins_each_rule_with_the_event() {
    let mut join = RuleCoProcessFunction::new();
    // A data event before any rule arrives joins with nothing.
    assert_eq!(join.process_left0(sample_event().to_record()).unwrap().len(), 0);

    assert_eq!(join.process_right0(sample_rule().to_record()).unwrap().len(), 0);
    let mut second = sample_rule();
    second.rule_id = 5;
    second.limit = 999;
    join.process_right0(second.to_record()).unwrap();

    let joined = join.process_left0(sample_event().to_record()).unwrap();
    assert_eq!(joined.len(), 2);
    let first = alarm_rule_event::Entity::parse(&joined[0]).unwrap();
    assert_eq!(first.rule_id, 4);
    assert_eq!(first.limit, 100);
    assert_eq!(first.payment_amount, 33);
    assert_eq!(first.event_time, 500);
    let second_joined = alarm_rule_event::Entity::parse(&joined[1]).unwrap();
    assert_eq!(second_joined.rule_id, 5);
    assert_eq!(second_joined.limit, 999);
}

#[test]
fn coprocess_upserts_rules_by_id() {
    let mut join = RuleCoProcessFunction::new();
    join.process_right0(sample_rule().to_record()).unwrap();
    let mut updated = sample_rule();
    updated.limit = 777;
    join.process_right0(updated.to_record()).unwrap();
    let joined = join.process_left0(sample_event().to_record()).unwrap();
    assert_eq!(joined.len(), 1);
    assert_eq!(alarm_rule_event::Entity::parse(&joined[0]).unwrap().limit, 777);
}

#[test]
fn event_stage_checks_and_passes_through() {
    let mut stage = EventFlatMapFunction::new();
    let out = stage.flat_map0(sample_event().to_record()).unwrap();
    assert_eq!(out.len(), 1);
    assert_eq!(alarm_event::Entity::parse(&out[0]).unwrap().payment_amount, 33);
    assert!(stage.flat_map0(sample_rule().to_record()).is_err());
}

#[test]
fn broadcast_fans_out_per_partition() {
    let mut stage = BroadcastSerdeFlatMapFunction::new();
    let context = Context::new(TaskId::default(), 3, FnSchema::Empty);
    stage.open(&context).unwrap();
    let out = stage.flat_map0(sample_rule().to_record()).unwrap();
    assert_eq!(out.len(), 3);
    for (i, record) in out.iter().enumerate() {
        assert_eq!(record.partition_num, i as u16);
        assert_eq!(alarm_rule::Entity::parse(record).unwrap().rule_id, 4);
    }
}

#[test]
fn broadcast_strips_payload_framing() {
    let stage = BroadcastSerdeFlatMapFunction::new();
    let cooked = stage.prepare_payload("\"{\\\"ruleId\\\":1}\"").unwrap();
    assert_eq!(cooked, "{\"ruleId\":1}");
    assert!(stage.prepare_payload("x").is_err());
}

#[test]
fn cleanup_task_drains_signals() {
    let mut channel = Handover::new("clean".to_string(), 10);
    channel.produce(cleanup::Entity { cleanup_time: 1500 }.to_record()).unwrap();
    let mut task = CleanUpTask::new(channel);

    let mut series = TimeSeries::new();
    series.insert(1000, 5);
    series.insert(1500, 6);
    series.insert(2000, 7);

    // Buckets strictly below 1500 go; 1500 itself stays.
    assert_eq!(task.clean_up_step(&mut series), Ok(1));
    assert_eq!(series.window_sum_checked(0, 3000), Some(13));
    // With nothing queued the task backs off.
    assert_eq!(task.clean_up_step(&mut series), Err(ChannelError::Empty));
}

#[test]
fn builder_builds_what_was_set() {
    let mut builder = DorisConfigOptionBuilder::new();
    builder
        .with_fe_nodes("h1:8030,h2:8030".to_string())
        .with_username("user".to_string())
        .with_password("secret".to_string())
        .with_connect_timeout_ms(10_000)
        .with_read_timeout_ms(5_000)
        .with_sink_batch_size(10)
        .with_sink_max_retries(3)
        .with_sink_column_separator("|".to_string())
        .with_sink_line_separator("\n".to_string())
        .with_sink_format(SinkFormat::CSV)
        .with_sink_strip_outer_array("false".to_string())
        .with_sink_default_seq_col("seq".to_string())
        .with_database("db".to_string())
        .with_table("t".to_string());
    let options = builder.build();
    assert_eq!(options.fe_nodes, "h1:8030,h2:8030");
    assert_eq!(options.username, "user");
    assert_eq!(options.connect_timeout_ms, 10_000);
    assert_eq!(options.sink_batch_size, 10);
    assert_eq!(options.sink_max_retries, 3);
    assert_eq!(options.sink_format, SinkFormat::CSV);
    assert_eq!(options.database, "db");
    assert_eq!(options.table, "t");
}

#[test]
fn csv_rendering_is_exact() {
    let row1 = vec![
        ("a".to_string(), "1".to_string()),
        ("b".to_string(), "x".to_string()),
    ];
    let row2 = vec![
        ("b".to_string(), "y".to_string()),
        ("a".to_string(), "2".to_string()),
    ];
    let values = vec![row1, row2];
    let columns = vec!["a".to_string(), "b".to_string()];
    assert_eq!(render_csv(&values, &columns).unwrap(), "1x2y");

    let missing = vec![vec![("a".to_string(), "1".to_string())]];
    assert_eq!(render_csv(&missing, &columns), Err(StreamError::MalformedRecord));
}

#[test]
fn urls_and_backends_render_exactly() {
    assert_eq!(
        build_stream_load_url("be:8040", "db", "t"),
        "http://be:8040/api/db/t/_stream_load?"
    );
    assert_eq!(format_backend("10.0.0.1", 8040), "10.0.0.1:8040");
}

#[test]
fn random_endpoint_picks_a_whole_piece() {
    let nodes = "h1:8030,h2:8030,h3:8030".to_string();
    for _ in 0..20 {
        let picked = random_endpoint(&nodes).unwrap();
        assert!(picked == "h1:8030" || picked == "h2:8030" || picked == "h3:8030");
    }
    assert_eq!(random_endpoint(&"only".to_string()).unwrap(), "only");
}

#[test]
fn sink_hands_records_to_its_channel() {
    let options = DorisConfigOptionBuilder::new().build();
    let mut sink = DorisSink::new(options);
    // Writing before the channel is opened is a broken-channel error.
    let record = cleanup::Entity { cleanup_time: 1 }.to_record();
    assert_eq!(sink.write_record(record), Err(StreamError::ChannelBroken));

    sink.open_channel(TaskId::default());
    let record = cleanup::Entity { cleanup_time: 2 }.to_record();
    assert!(sink.write_record(record).is_ok());
    assert_eq!(sink.handover.as_ref().unwrap().len(), 1);
}

#[test]
fn load_request_and_response_models() {
    let request = LoadRequest::new(
        Vec::new(),
        "db".to_string(),
        "t".to_string(),
        vec!["a".to_string()],
        false,
        "".to_string(),
        "label".to_string(),
    );
    assert_eq!(request.database, "db");
    assert!(request.value.is_empty());

    let content = RespContent::new();
    assert_eq!(content.status, "200");
    assert_eq!(content.message, "request body is empty");
}

#[test]
fn counters_count_monotonically() {
    let mut counter = register_counter("reduce".to_string(), vec![Tag::new(
        "task".to_string(),
        "0".to_string(),
    )]);
    counter.fetch_add(1);
    counter.fetch_add(2);
    assert_eq!(counter.get(), 3);
}

#[test]
fn decimal_text_round_trips() {
    assert_eq!(render_u64(0), "0");
    assert_eq!(render_u64(90210), "90210");
    assert_eq!(render_i64(-42), "-42");
    assert_eq!(render_i64(i64::MIN), "-9223372036854775808");
    assert_eq!(parse_u64("90210"), Some(90210));
    assert_eq!(parse_u64(""), None);
    assert_eq!(parse_u64("12a"), None);
    assert_eq!(parse_u64("99999999999999999999999"), None);
}

#[test]
fn sum_accumulator_folds_and_merges() {
    let mut left = SumAccumulator::new();
    left.add(40);
    left.add(-15);
    let mut right = SumAccumulator::new();
    right.add(100);
    // Merging two partial sums equals summing the union.
    left.merge(&right);
    assert_eq!(left.get_local_value(), 125);
    left.reset_local_value(7);
    assert_eq!(left.get_local_value(), 7);
}
