//! The keyed alarm evaluation: the heart of the pipeline.
//!
//! On each incoming rule/event pair the stage inserts the payment amount
//! into the keyed time-bucket state, folds every value inside
//! `(event_time - window, event_time]` through a fresh sum accumulator,
//! compares the fold result against the rule's limit with the rule's
//! operator, and emits one alert record exactly when the comparison
//! holds.  An unrecognized aggregator or operator name is a fatal
//! configuration error, never a silent default; an inactive rule skips
//! evaluation and emits nothing.

use vstd::prelude::*;
use crate::buffer::FieldValue;
use crate::comparison::{compare_spec, operator_of};
use crate::element::Record;
use crate::entities::{alarm_rule_event, alert};
use crate::text::{i64_digits, push_i64, push_quoted, push_u64, u64_digits};

verus! {

/// A text value framed in double quotes.
pub open spec fn quoted(s: Seq<char>) -> Seq<char> {
    seq!['"'] + s + seq!['"']
}

/// The text of the violated rule embedded in an alert.
pub open spec fn rule_text(re: alarm_rule_event::Entity) -> Seq<char> {
    "{\"ruleId\":"@ + u64_digits(re.rule_id as nat) + ",\"ruleState\":"@ + quoted(re.rule_state@)
        + ",\"groupingKeyNames\":"@ + quoted(re.grouping_key_names@)
        + ",\"aggregateFieldName\":"@ + quoted(re.aggregate_field_name@)
        + ",\"aggregatorFunctionType\":"@ + quoted(re.aggregator_function_type@)
        + ",\"limitOperatorType\":"@ + quoted(re.limit_operator_type@) + ",\"limit\":"@
        + i64_digits(re.limit as int) + ",\"windowMinutes\":"@ + i64_digits(
        re.window_minutes as int,
    ) + "}"@
}

/// The text of the triggering event embedded in an alert.
pub open spec fn event_text(re: alarm_rule_event::Entity) -> Seq<char> {
    "{\"transactionId\":"@ + i64_digits(re.transaction_id as int) + ",\"eventTime\":"@
        + i64_digits(re.event_time as int) + ",\"payeeId\":"@ + i64_digits(re.payee_id as int)
        + ",\"beneficiaryId\":"@ + i64_digits(re.beneficiary_id as int) + ",\"paymentAmount\":"@
        + i64_digits(re.payment_amount as int) + ",\"paymentType\":"@ + quoted(re.payment_type@)
        + "}"@
}

/// Render the violated-rule text.
pub fn render_rule_text(re: &alarm_rule_event::Entity) -> (r: String)
    ensures
        r@ == rule_text(*re),
{
    let mut out = String::new();
    out.append("{\"ruleId\":");
    push_u64(&mut out, re.rule_id as u64);
    out.append(",\"ruleState\":");
    push_quoted(&mut out, re.rule_state.as_str());
    out.append(",\"groupingKeyNames\":");
    push_quoted(&mut out, re.grouping_key_names.as_str());
    out.append(",\"aggregateFieldName\":");
    push_quoted(&mut out, re.aggregate_field_name.as_str());
    out.append(",\"aggregatorFunctionType\":");
    push_quoted(&mut out, re.aggregator_function_type.as_str());
    out.append(",\"limitOperatorType\":");
    push_quoted(&mut out, re.limit_operator_type.as_str());
    out.append(",\"limit\":");
    push_i64(&mut out, re.limit);
    out.append(",\"windowMinutes\":");
    push_i64(&mut out, re.window_minutes as i64);
    out.append("}");
    proof {
        assert(out@ =~= rule_text(*re));
    }
    out
}

/// Render the triggering-event text.
pub fn render_event_text(re: &alarm_rule_event::Entity) -> (r: String)
    ensures
        r@ == event_text(*re),
{
    let mut out = String::new();
    out.append("{\"transactionId\":");
    push_i64(&mut out, re.transaction_id);
    out.append(",\"eventTime\":");
    push_i64(&mut out, re.event_time);
    out.append(",\"payeeId\":");
    push_i64(&mut out, re.payee_id);
    out.append(",\"beneficiaryId\":");
    push_i64(&mut out, re.beneficiary_id);
    out.append(",\"paymentAmount\":");
    push_i64(&mut out, re.payment_amount);
    out.append(",\"paymentType\":");
    push_quoted(&mut out, re.payment_type.as_str());
    out.append("}");
    proof {
        assert(out@ =~= event_text(*re));
    }
    out
}

/// The event time rounded down to its second: the bucket granularity of
/// the keyed stage.
pub open spec fn bucket_second(t: int) -> int {
    if t >= 0 {
        (t / 1000) * 1000
    } else {
        -(((-t) / 1000) * 1000)
    }
}

/// Round an event time down in magnitude to its second.
pub fn floor_to_second(t: i64) -> (r: i64)
    ensures
        r as int == bucket_second(t as int),
{
    if t >= 0 {
        let q = (t as u64) / 1000 * 1000;
        q as i64
    } else {
        let m = (-(t as i128)) as u64;
        let q = m / 1000 * 1000;
        (-(q as i128)) as i64
    }
}

/// The lower window bound of one rule/event pair: its event time minus
/// its window size in milliseconds.
pub open spec fn window_start_of(re: alarm_rule_event::Entity) -> int {
    re.event_time - re.window_minutes * 1000
}

/// Whether the alarm fires: the windowed sum, compared with the rule's
/// operator against the rule's limit.
pub open spec fn alarm_fires(re: alarm_rule_event::Entity, sum: int) -> bool {
    compare_spec(operator_of(re.limit_operator_type@)->0, sum, re.limit as int)
}

/// Whether a record is the alert this stage emits for a rule/event pair
/// under a partition key, with a given triggering value.
pub open spec fn is_alert_record(
    fields: Seq<FieldValue>,
    re: alarm_rule_event::Entity,
    key: Seq<char>,
    value: int,
) -> bool {
    &&& fields.len() == 5
    &&& fields[0] == FieldValue::U32(re.rule_id)
    &&& fields[1] is Str && fields[1]->Str_0@ == rule_text(re)
    &&& fields[2] is Str && fields[2]->Str_0@ == key
    &&& fields[3] is Str && fields[3]->Str_0@ == event_text(re)
    &&& fields[4] is I64 && fields[4]->I64_0 as int == value
}

/// Build the alert record for a rule/event pair.
pub fn build_alert_record(
    re: &alarm_rule_event::Entity,
    key: &String,
    value: i64,
) -> (r: Record)
    ensures
        is_alert_record(r@, *re, key@, value as int),
{
    let entity = alert::Entity {
        rule_id: re.rule_id,
        violated_rule: render_rule_text(re),
        key: key.clone(),
        triggering_event: render_event_text(re),
        triggering_value: value,
    };
    entity.to_record()
}


/// The value a cleanup threshold clamps to when it leaves the machine
/// range.
pub open spec fn clamp_i64(x: int) -> int {
    if x < i64::MIN {
        i64::MIN as int
    } else if x > i64::MAX {
        i64::MAX as int
    } else {
        x
    }
}

} // verus!
