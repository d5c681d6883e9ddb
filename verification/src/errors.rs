//! Error taxonomy of the stream core.
//!
//! Configuration errors are fatal to a task; channel errors distinguish
//! backpressure (`Full`), an idle queue (`Empty`) and orderly shutdown
//! (`Closed`); buffer errors report a write out of declared order or a
//! read that does not match the declared field type.

use vstd::prelude::*;

verus! {

/// An error raised while writing or reading a typed record buffer.
#[derive(Clone, Copy, Debug, PartialEq, Eq, Structural)]
pub enum BufferError {
    /// A field was written out of its declared order.
    OutOfOrder,
    /// A value did not match the declared field type.
    TypeMismatch,
    /// A field index beyond the written fields was read.
    IndexOutOfRange,
}

/// An error raised by the backpressure channel.
#[derive(Clone, Copy, Debug, PartialEq, Eq, Structural)]
pub enum ChannelError {
    /// The channel is at capacity; the producer must back off.
    Full,
    /// Nothing is queued right now.
    Empty,
    /// The other side has terminated; this signals orderly shutdown.
    Closed,
}

/// A fatal error of a running task.
#[derive(Clone, Copy, Debug, PartialEq, Eq, Structural)]
pub enum StreamError {
    /// A comparison-operator name outside the six recognized ones.
    UnsupportedOperator,
    /// An aggregator-function name outside the recognized ones.
    UnsupportedAggregator,
    /// A record whose fields do not match the declared schema.
    MalformedRecord,
    /// A barrier whose checkpoint id did not increase strictly.
    BarrierOutOfOrder,
    /// A checkpoint token that could not be decoded.
    MalformedHandle,
    /// A channel produce failed fatally.
    ChannelBroken,
    /// A window's absolute values exceed the machine range of the fold.
    AggregateOverflow,
    /// A placeholder stage that offers no behaviour yet.
    NotImplemented,
}

impl BufferError {
    /// A short description, in place of a `Display` implementation.
    pub fn message(&self) -> (r: &'static str)
    {
        match self {
            BufferError::OutOfOrder => "field written out of declared order",
            BufferError::TypeMismatch => "value does not match declared field type",
            BufferError::IndexOutOfRange => "field index out of range",
        }
    }
}

impl StreamError {
    /// A short description, in place of a `Display` implementation.
    pub fn message(&self) -> (r: &'static str)
    {
        match self {
            StreamError::UnsupportedOperator => "unsupported comparison operator",
            StreamError::UnsupportedAggregator => "unsupported aggregator function",
            StreamError::MalformedRecord => "record does not match schema",
            StreamError::BarrierOutOfOrder => "barrier checkpoint id did not increase",
            StreamError::MalformedHandle => "checkpoint handle could not be decoded",
            StreamError::ChannelBroken => "channel produce failed",
            StreamError::AggregateOverflow => "window aggregate out of machine range",
            StreamError::NotImplemented => "stage not implemented",
        }
    }
}

} // verus!
