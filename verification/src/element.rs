//! The unit of data flowing through the operator graph.
//!
//! An [`Element`] is a tagged variant over a data [`Record`], a checkpoint
//! [`Barrier`] and a [`Watermark`].  Only records and barriers matter to
//! the core; any other variant passes through operators untouched.

use vstd::prelude::*;
use crate::buffer::{Buffer, FieldValue, Schema};
use crate::errors::BufferError;

verus! {

/// A data record: a typed column buffer plus its routing partition.
///
/// Ownership is exclusive per in-flight instance; a clone is a deep copy,
/// never aliasing.
#[derive(Clone, Debug)]
pub struct Record {
    pub partition_num: u16,
    pub buffer: Buffer,
}

impl View for Record {
    type V = Seq<FieldValue>;

    open spec fn view(&self) -> Seq<FieldValue> {
        self.buffer@
    }
}

impl Record {
    /// An empty record, ready for a single writer pass.
    pub fn new() -> (r: Record)
        ensures
            r@.len() == 0,
            r.partition_num == 0,
    {
        Record { partition_num: 0, buffer: Buffer::new() }
    }

    /// An empty record; the size hint changes nothing observable.
    pub fn with_capacity(_capacity: usize) -> (r: Record)
        ensures
            r@.len() == 0,
            r.partition_num == 0,
    {
        Record { partition_num: 0, buffer: Buffer::new() }
    }

    pub fn len(&self) -> (n: usize)
        ensures
            n == self@.len(),
    {
        self.buffer.len()
    }

    /// Whether the written fields match the schema exactly, in order.
    pub open spec fn conforms_to(self, schema: Schema) -> bool {
        self.buffer.conforms_to(schema)
    }

    /// Write the next declared field; out of order fails without mutating.
    pub fn write_at(&mut self, schema: &Schema, index: usize, value: FieldValue)
        -> (r: Result<(), BufferError>)
        ensures
            r is Ok <==> (index == old(self)@.len() && index < schema@.len()
                && value.type_of() == schema@[index as int].field_type),
            r is Ok ==> final(self)@ == old(self)@.push(value),
            r is Err ==> final(self)@ == old(self)@,
            r is Err ==> (r == Err::<(), BufferError>(BufferError::OutOfOrder)
                    <==> index != old(self)@.len()),
            final(self).partition_num == old(self).partition_num,
    {
        self.buffer.write_at(schema, index, value)
    }

    /// Read the field at `index`.
    pub fn get(&self, index: usize) -> (r: Result<&FieldValue, BufferError>)
        ensures
            r is Ok <==> index < self@.len(),
            r is Ok ==> r->Ok_0 == self@[index as int],
    {
        self.buffer.get(index)
    }

    pub fn get_bool(&self, index: usize) -> (r: Result<bool, BufferError>)
        ensures
            r is Ok <==> (index < self@.len() && self@[index as int] is Bool),
            r is Ok ==> self@[index as int] == FieldValue::Bool(r->Ok_0),
    {
        match self.buffer.get(index) {
            Ok(FieldValue::Bool(v)) => Ok(*v),
            Ok(_) => Err(BufferError::TypeMismatch),
            Err(e) => Err(e),
        }
    }

    pub fn get_i32(&self, index: usize) -> (r: Result<i32, BufferError>)
        ensures
            r is Ok <==> (index < self@.len() && self@[index as int] is I32),
            r is Ok ==> self@[index as int] == FieldValue::I32(r->Ok_0),
    {
        match self.buffer.get(index) {
            Ok(FieldValue::I32(v)) => Ok(*v),
            Ok(_) => Err(BufferError::TypeMismatch),
            Err(e) => Err(e),
        }
    }

    pub fn get_u32(&self, index: usize) -> (r: Result<u32, BufferError>)
        ensures
            r is Ok <==> (index < self@.len() && self@[index as int] is U32),
            r is Ok ==> self@[index as int] == FieldValue::U32(r->Ok_0),
    {
        match self.buffer.get(index) {
            Ok(FieldValue::U32(v)) => Ok(*v),
            Ok(_) => Err(BufferError::TypeMismatch),
            Err(e) => Err(e),
        }
    }

    pub fn get_i64(&self, index: usize) -> (r: Result<i64, BufferError>)
        ensures
            r is Ok <==> (index < self@.len() && self@[index as int] is I64),
            r is Ok ==> self@[index as int] == FieldValue::I64(r->Ok_0),
    {
        match self.buffer.get(index) {
            Ok(FieldValue::I64(v)) => Ok(*v),
            Ok(_) => Err(BufferError::TypeMismatch),
            Err(e) => Err(e),
        }
    }

    pub fn get_u64(&self, index: usize) -> (r: Result<u64, BufferError>)
        ensures
            r is Ok <==> (index < self@.len() && self@[index as int] is U64),
            r is Ok ==> self@[index as int] == FieldValue::U64(r->Ok_0),
    {
        match self.buffer.get(index) {
            Ok(FieldValue::U64(v)) => Ok(*v),
            Ok(_) => Err(BufferError::TypeMismatch),
            Err(e) => Err(e),
        }
    }

    pub fn get_str(&self, index: usize) -> (r: Result<&String, BufferError>)
        ensures
            r is Ok <==> (index < self@.len() && self@[index as int] is Str),
            r is Ok ==> self@[index as int] == FieldValue::Str(*r->Ok_0),
    {
        match self.buffer.get(index) {
            Ok(FieldValue::Str(v)) => Ok(v),
            Ok(_) => Err(BufferError::TypeMismatch),
            Err(e) => Err(e),
        }
    }

    pub fn get_binary(&self, index: usize) -> (r: Result<&Vec<u8>, BufferError>)
        ensures
            r is Ok <==> (index < self@.len() && self@[index as int] is Bytes),
            r is Ok ==> self@[index as int] == FieldValue::Bytes(*r->Ok_0),
    {
        match self.buffer.get(index) {
            Ok(FieldValue::Bytes(v)) => Ok(v),
            Ok(_) => Err(BufferError::TypeMismatch),
            Err(e) => Err(e),
        }
    }
}

/// A checkpoint barrier, carrying a monotonically increasing id.
#[derive(Clone, Copy, Debug, PartialEq, Eq, Structural)]
pub struct Barrier {
    pub checkpoint_id: u64,
}

impl Barrier {
    pub fn new(checkpoint_id: u64) -> (b: Barrier)
        ensures
            b.checkpoint_id == checkpoint_id,
    {
        Barrier { checkpoint_id }
    }
}

/// An event-time watermark.
#[derive(Clone, Copy, Debug, PartialEq, Eq, Structural)]
pub struct Watermark {
    pub timestamp: i64,
}

/// The tagged variant flowing through the graph.
#[derive(Clone, Debug)]
pub enum Element {
    Record(Record),
    Barrier(Barrier),
    Watermark(Watermark),
}

impl Element {
    pub fn from_record(record: Record) -> (e: Element)
        ensures
            e == Element::Record(record),
    {
        Element::Record(record)
    }

    pub fn from_barrier(barrier: Barrier) -> (e: Element)
        ensures
            e == Element::Barrier(barrier),
    {
        Element::Barrier(barrier)
    }

    pub fn is_record(&self) -> (r: bool)
        ensures
            r == (self is Record),
    {
        match self {
            Element::Record(_) => true,
            _ => false,
        }
    }

    pub fn is_barrier(&self) -> (r: bool)
        ensures
            r == (self is Barrier),
    {
        match self {
            Element::Barrier(_) => true,
            _ => false,
        }
    }
}

} // verus!
