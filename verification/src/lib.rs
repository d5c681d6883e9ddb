//! A stream-processing core: an operator execution chain with a
//! checkpoint-barrier protocol, keyed windowed aggregation state, and a
//! bounded backpressure channel between a synchronous operator chain and
//! background workers.

pub mod errors;
pub mod buffer;
pub mod element;
pub mod accumulator;
pub mod comparison;
pub mod agg_state;
pub mod handover;
pub mod entities;
pub mod text;
pub mod metrics;
pub mod checkpoint;
pub mod functions;
pub mod alert;
pub mod alert_keyed;
pub mod alert_flatmap;
pub mod time;
pub mod key_selector;
pub mod coprocess;
pub mod event_fn;
pub mod runnable;
pub mod doris;
pub mod doris_sink;
pub mod shared_map;
