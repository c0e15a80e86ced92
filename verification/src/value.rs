//! The values on both sides of a migration: what a source cell stores, and
//! what the document store receives.

use vstd::prelude::*;

verus! {

/// What a source cell physically stores, whatever its column was declared as.
#[derive(Debug, Clone, PartialEq, Eq)]
pub enum Stored {
    Null,
    Integer(i64),
    /// The IEEE-754 bit pattern of the stored 64-bit floating point number.
    Real(u64),
    Text(String),
    Blob(Vec<u8>),
}

/// One cell of a source row.
#[derive(Debug, Clone, PartialEq, Eq)]
pub struct RawCell {
    pub stored: Stored,
    /// The UTC instant, in milliseconds since the Unix epoch, that the source
    /// engine reads from the cell when the cell is taken as a timestamp;
    /// `None` where it reads none.
    pub instant: Option<i64>,
}

/// A value of the document store. Exactly one tag is active.
#[derive(Debug, Clone, PartialEq, Eq)]
pub enum TypedValue {
    Null,
    Bool(bool),
    Int64(i64),
    /// The IEEE-754 bit pattern of a 64-bit floating point number.
    Double(u64),
    String(String),
    /// Milliseconds since the Unix epoch, UTC.
    DateTime(i64),
    /// Bytes of the generic binary subtype.
    Binary(Vec<u8>),
}

/// The mathematical content of a [`Stored`].
pub enum Storage {
    Null,
    Integer(i64),
    Real(u64),
    Text(Seq<char>),
    Blob(Seq<u8>),
}

/// The mathematical content of a [`RawCell`].
pub struct Cell {
    pub stored: Storage,
    pub instant: Option<i64>,
}

/// The mathematical content of a [`TypedValue`].
pub enum Value {
    Null,
    Bool(bool),
    Int64(i64),
    Double(u64),
    String(Seq<char>),
    DateTime(i64),
    Binary(Seq<u8>),
}

impl View for Stored {
    type V = Storage;

    open spec fn view(&self) -> Storage {
        match self {
            Stored::Null => Storage::Null,
            Stored::Integer(v) => Storage::Integer(*v),
            Stored::Real(bits) => Storage::Real(*bits),
            Stored::Text(s) => Storage::Text(s@),
            Stored::Blob(b) => Storage::Blob(b@),
        }
    }
}

impl View for RawCell {
    type V = Cell;

    open spec fn view(&self) -> Cell {
        Cell { stored: self.stored@, instant: self.instant }
    }
}

impl View for TypedValue {
    type V = Value;

    open spec fn view(&self) -> Value {
        match self {
            TypedValue::Null => Value::Null,
            TypedValue::Bool(b) => Value::Bool(*b),
            TypedValue::Int64(v) => Value::Int64(*v),
            TypedValue::Double(bits) => Value::Double(*bits),
            TypedValue::String(s) => Value::String(s@),
            TypedValue::DateTime(ms) => Value::DateTime(*ms),
            TypedValue::Binary(b) => Value::Binary(b@),
        }
    }
}

} // verus!
