//! The record layouts flowing through the alarm pipeline: each module
//! declares one schema (an ordered list of typed, named fields), the
//! entity struct carrying those fields as plain values, and the exact
//! conversions between the entity and a [`crate::element::Record`].
//!
//! Monetary amounts and limits that ride in floating-point fields on the
//! wire are carried here as integer minor units, so every conversion is
//! exact and a round trip reproduces each field byte for byte.

pub mod alarm_event;
pub mod alarm_rule;
pub mod alarm_rule_event;
pub mod alert;
pub mod cleanup;
pub mod dynamic_key;
