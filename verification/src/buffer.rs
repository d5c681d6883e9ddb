//! The typed column buffer that carries a record's fields.
//!
//! A record is a sequence of typed fields declared by a [`Schema`]: an
//! ordered list of (name, type) pairs.  A single writer pass populates the
//! buffer strictly in declared field order; a write attempt out of order
//! fails without mutating the buffer.  Fields are read back by index.
//!
//! Floating-point fields are carried as their raw IEEE-754 bit patterns
//! (`F32Bits`, `F64Bits`), which keeps a round trip byte-exact.

use vstd::prelude::*;
use crate::errors::BufferError;

verus! {

/// The type tag of one declared field.
#[derive(Clone, Copy, Debug, PartialEq, Eq, Structural)]
pub enum FieldType {
    Boolean,
    Int8,
    UInt8,
    Int16,
    UInt16,
    Int32,
    UInt32,
    Int64,
    UInt64,
    Float32,
    Float64,
    Utf8,
    Binary,
}

/// One field value, tagged by its type.
#[derive(Clone, Debug)]
pub enum FieldValue {
    Bool(bool),
    I8(i8),
    U8(u8),
    I16(i16),
    U16(u16),
    I32(i32),
    U32(u32),
    I64(i64),
    U64(u64),
    /// An IEEE-754 single-precision value, as its raw bit pattern.
    F32Bits(u32),
    /// An IEEE-754 double-precision value, as its raw bit pattern.
    F64Bits(u64),
    Str(String),
    Bytes(Vec<u8>),
}

impl FieldValue {
    /// The type tag that this value carries.
    pub open spec fn type_of(self) -> FieldType {
        match self {
            FieldValue::Bool(_) => FieldType::Boolean,
            FieldValue::I8(_) => FieldType::Int8,
            FieldValue::U8(_) => FieldType::UInt8,
            FieldValue::I16(_) => FieldType::Int16,
            FieldValue::U16(_) => FieldType::UInt16,
            FieldValue::I32(_) => FieldType::Int32,
            FieldValue::U32(_) => FieldType::UInt32,
            FieldValue::I64(_) => FieldType::Int64,
            FieldValue::U64(_) => FieldType::UInt64,
            FieldValue::F32Bits(_) => FieldType::Float32,
            FieldValue::F64Bits(_) => FieldType::Float64,
            FieldValue::Str(_) => FieldType::Utf8,
            FieldValue::Bytes(_) => FieldType::Binary,
        }
    }

    /// The type tag of this value, computed at run time.
    pub fn kind(&self) -> (t: FieldType)
        ensures
            t == self.type_of(),
    {
        match self {
            FieldValue::Bool(_) => FieldType::Boolean,
            FieldValue::I8(_) => FieldType::Int8,
            FieldValue::U8(_) => FieldType::UInt8,
            FieldValue::I16(_) => FieldType::Int16,
            FieldValue::U16(_) => FieldType::UInt16,
            FieldValue::I32(_) => FieldType::Int32,
            FieldValue::U32(_) => FieldType::UInt32,
            FieldValue::I64(_) => FieldType::Int64,
            FieldValue::U64(_) => FieldType::UInt64,
            FieldValue::F32Bits(_) => FieldType::Float32,
            FieldValue::F64Bits(_) => FieldType::Float64,
            FieldValue::Str(_) => FieldType::Utf8,
            FieldValue::Bytes(_) => FieldType::Binary,
        }
    }
}

/// One declared field: a name and a type.
#[derive(Clone, Debug)]
pub struct Field {
    pub name: String,
    pub field_type: FieldType,
}

impl Field {
    pub fn new(name: String, field_type: FieldType) -> (f: Field)
        ensures
            f.name == name,
            f.field_type == field_type,
    {
        Field { name, field_type }
    }
}

/// An ordered list of declared fields.
#[derive(Clone, Debug)]
pub struct Schema {
    pub fields: Vec<Field>,
}

impl View for Schema {
    type V = Seq<Field>;

    open spec fn view(&self) -> Seq<Field> {
        self.fields@
    }
}

impl Schema {
    /// A schema with no fields.
    pub fn empty() -> (s: Schema)
        ensures
            s@.len() == 0,
    {
        Schema { fields: Vec::new() }
    }

    pub fn new(fields: Vec<Field>) -> (s: Schema)
        ensures
            s@ == fields@,
    {
        Schema { fields }
    }

    pub fn len(&self) -> (n: usize)
        ensures
            n == self@.len(),
    {
        self.fields.len()
    }

    pub fn field_type(&self, i: usize) -> (t: FieldType)
        requires
            i < self@.len(),
        ensures
            t == self@[i as int].field_type,
    {
        self.fields[i].field_type
    }

    pub fn field_name(&self, i: usize) -> (n: &String)
        requires
            i < self@.len(),
        ensures
            n == self@[i as int].name,
    {
        &self.fields[i].name
    }
}

/// The typed column buffer: the written fields, in declared order.
///
/// The number of fields already written is the write position: a write at
/// any other index fails with `OutOfOrder` and leaves the buffer unchanged.
#[derive(Clone, Debug)]
pub struct Buffer {
    pub fields: Vec<FieldValue>,
}

impl View for Buffer {
    type V = Seq<FieldValue>;

    open spec fn view(&self) -> Seq<FieldValue> {
        self.fields@
    }
}

impl Buffer {
    /// An empty buffer, ready for a writer pass.
    pub fn new() -> (b: Buffer)
        ensures
            b@.len() == 0,
    {
        Buffer { fields: Vec::new() }
    }

    pub fn len(&self) -> (n: usize)
        ensures
            n == self@.len(),
    {
        self.fields.len()
    }

    /// Whether every written field matches the schema, in order.
    pub open spec fn conforms_to(self, schema: Schema) -> bool {
        self@.len() == schema@.len()
            && forall|i: int| 0 <= i < self@.len() ==> self@[i].type_of() == schema@[i].field_type
    }

    /// Write the field at `index`, which must be the next declared field.
    ///
    /// Succeeds exactly when `index` is the current write position, lies
    /// inside the schema, and `value` carries the declared type; on any
    /// failure the buffer is left unchanged.
    pub fn write_at(&mut self, schema: &Schema, index: usize, value: FieldValue)
        -> (r: Result<(), BufferError>)
        ensures
            r is Ok <==> (index == old(self)@.len() && index < schema@.len()
                && value.type_of() == schema@[index as int].field_type),
            r is Ok ==> final(self)@ == old(self)@.push(value),
            r is Err ==> final(self)@ == old(self)@,
            r is Err ==> (r == Err::<(), BufferError>(BufferError::OutOfOrder)
                    <==> index != old(self)@.len()),
    {
        if index != self.fields.len() {
            Err(BufferError::OutOfOrder)
        } else if index >= schema.len() {
            Err(BufferError::IndexOutOfRange)
        } else if value.kind() != schema.field_type(index) {
            Err(BufferError::TypeMismatch)
        } else {
            self.fields.push(value);
            Ok(())
        }
    }

    /// Read the field at `index`.
    pub fn get(&self, index: usize) -> (r: Result<&FieldValue, BufferError>)
        ensures
            r is Ok <==> index < self@.len(),
            r is Ok ==> r->Ok_0 == self@[index as int],
            r is Err ==> r == Err::<&FieldValue, BufferError>(BufferError::IndexOutOfRange),
    {
        if index < self.fields.len() {
            Ok(&self.fields[index])
        } else {
            Err(BufferError::IndexOutOfRange)
        }
    }
}

} // verus!
