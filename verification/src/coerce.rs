//! The typing of one cell: a dispatch on a type name, tried first on the
//! column's declared type and then on the type of what the cell stores.

use vstd::prelude::*;
use vstd::string::StrSliceExecFns;
use crate::text::str_eq;
use crate::value::{Cell, RawCell, Storage, Stored, TypedValue, Value};

verus! {

/// A cell that no known type name reads.
#[derive(Debug, Clone, PartialEq, Eq)]
pub struct UnrecognizedType {
    /// The offending type name.
    pub sql_type: String,
}

/// Whether a stored integer reads as `true`: the engine's boolean read takes
/// the low 32 bits of the integer and compares them with zero.
pub open spec fn integer_as_bool(v: i64) -> bool {
    v as int % 0x1_0000_0000 != 0
}

/// Whether a type name is one of the known ones.
pub open spec fn is_recognized(sql_type: Seq<char>) -> bool {
    ||| sql_type == "BOOLEAN"@
    ||| sql_type == "INTEGER"@
    ||| sql_type == "REAL"@
    ||| sql_type == "TEXT"@
    ||| sql_type == "DATETIME"@
    ||| sql_type == "BLOB"@
    ||| sql_type == "NULL"@
}

/// What a cell is when it is read as `sql_type`: `None` for an unknown type
/// name, `Some(Value::Null)` where the type is known but what the cell stores
/// cannot be read as that type.
pub open spec fn field_value(sql_type: Seq<char>, cell: Cell) -> Option<Value> {
    if sql_type == "BOOLEAN"@ {
        Some(
            match cell.stored {
                Storage::Integer(v) => Value::Bool(integer_as_bool(v)),
                Storage::Text(s) => Value::Bool(s == "t"@),
                _ => Value::Null,
            },
        )
    } else if sql_type == "INTEGER"@ {
        Some(
            match cell.stored {
                Storage::Integer(v) => Value::Int64(v),
                _ => Value::Null,
            },
        )
    } else if sql_type == "REAL"@ {
        Some(
            match cell.stored {
                Storage::Real(bits) => Value::Double(bits),
                _ => Value::Null,
            },
        )
    } else if sql_type == "TEXT"@ {
        Some(
            match cell.stored {
                Storage::Text(s) => Value::String(s),
                _ => Value::Null,
            },
        )
    } else if sql_type == "DATETIME"@ {
        Some(
            match (cell.stored, cell.instant) {
                (Storage::Integer(_), Some(ms)) => Value::DateTime(ms),
                (Storage::Real(_), Some(ms)) => Value::DateTime(ms),
                (Storage::Text(_), Some(ms)) => Value::DateTime(ms),
                _ => Value::Null,
            },
        )
    } else if sql_type == "BLOB"@ {
        Some(
            match cell.stored {
                Storage::Blob(b) => Value::Binary(b),
                Storage::Text(s) => Value::Binary(vstd::utf8::encode_utf8(s)),
                _ => Value::Null,
            },
        )
    } else if sql_type == "NULL"@ {
        Some(Value::Null)
    } else {
        None
    }
}

/// Reads a cell as `sql_type`, by the fixed table of known type names.
///
/// A known type that does not fit what the cell stores gives `Null`; an
/// unknown type name is the error, which carries that name.
pub fn get_field_value(sql_type: &str, cell: &RawCell) -> (out: Result<
    TypedValue,
    UnrecognizedType,
>)
    ensures
        match out {
            Ok(value) => field_value(sql_type@, cell@) == Some(value@),
            Err(e) => field_value(sql_type@, cell@) is None && e.sql_type@ == sql_type@,
        },
{
    if str_eq(sql_type, "BOOLEAN") {
        Ok(
            match &cell.stored {
                Stored::Integer(v) => TypedValue::Bool(*v % 0x1_0000_0000 != 0),
                Stored::Text(s) => TypedValue::Bool(str_eq(s.as_str(), "t")),
                _ => TypedValue::Null,
            },
        )
    } else if str_eq(sql_type, "INTEGER") {
        Ok(
            match &cell.stored {
                Stored::Integer(v) => TypedValue::Int64(*v),
                _ => TypedValue::Null,
            },
        )
    } else if str_eq(sql_type, "REAL") {
        Ok(
            match &cell.stored {
                Stored::Real(bits) => TypedValue::Double(*bits),
                _ => TypedValue::Null,
            },
        )
    } else if str_eq(sql_type, "TEXT") {
        Ok(
            match &cell.stored {
                Stored::Text(s) => TypedValue::String(s.clone()),
                _ => TypedValue::Null,
            },
        )
    } else if str_eq(sql_type, "DATETIME") {
        Ok(
            match (&cell.stored, cell.instant) {
                (Stored::Integer(_), Some(ms)) => TypedValue::DateTime(ms),
                (Stored::Real(_), Some(ms)) => TypedValue::DateTime(ms),
                (Stored::Text(_), Some(ms)) => TypedValue::DateTime(ms),
                _ => TypedValue::Null,
            },
        )
    } else if str_eq(sql_type, "BLOB") {
        Ok(
            match &cell.stored {
                Stored::Blob(b) => TypedValue::Binary(b.clone()),
                Stored::Text(s) => TypedValue::Binary(s.as_str().as_bytes_vec()),
                _ => TypedValue::Null,
            },
        )
    } else if str_eq(sql_type, "NULL") {
        Ok(TypedValue::Null)
    } else {
        Err(UnrecognizedType { sql_type: sql_type.to_owned() })
    }
}

/// Whether `sql_type` is a known type that reads a value other than `Null`
/// from the cell: the type fits what the cell stores.
pub open spec fn fits(sql_type: Seq<char>, cell: Cell) -> bool {
    field_value(sql_type, cell) matches Some(value) && value != Value::Null
}

/// The second pass: the cell read by its runtime type. Where that name is
/// unknown too, the error names the declared type if it is unknown as well,
/// the runtime type otherwise.
pub open spec fn second_pass(declared: Seq<char>, runtime: Seq<char>, cell: Cell) -> Result<
    Value,
    Seq<char>,
> {
    match field_value(runtime, cell) {
        Some(value) => Ok(value),
        None => Err(
            if is_recognized(declared) {
                runtime
            } else {
                declared
            },
        ),
    }
}

/// The value of a cell, given the declared type of its column and the
/// runtime type of what it stores. A null cell is `Null`. Otherwise the
/// declared type decides where it fits the cell, and the runtime type where
/// it does not.
pub open spec fn coerced(declared: Seq<char>, runtime: Seq<char>, cell: Cell) -> Result<
    Value,
    Seq<char>,
> {
    if cell.stored is Null {
        Ok(Value::Null)
    } else if fits(declared, cell) {
        Ok(field_value(declared, cell)->0)
    } else {
        second_pass(declared, runtime, cell)
    }
}

/// Types one cell: `Null` for a null cell, else the cell read as `declared`,
/// and where that gives `Null` or `declared` is unknown, the cell read as
/// `runtime`. Fails where that second reading is needed and `runtime` is
/// unknown; the error then names `declared` if it is unknown too, `runtime`
/// otherwise.
pub fn coerce_cell(declared: &str, runtime: &str, cell: &RawCell) -> (out: Result<
    TypedValue,
    UnrecognizedType,
>)
    ensures
        match out {
            Ok(value) => coerced(declared@, runtime@, cell@) == Ok::<Value, Seq<char>>(value@),
            Err(e) => coerced(declared@, runtime@, cell@) == Err::<Value, Seq<char>>(e.sql_type@),
        },
{
    if let Stored::Null = cell.stored {
        return Ok(TypedValue::Null);
    }
    match get_field_value(declared, cell) {
        Ok(TypedValue::Null) => get_field_value(runtime, cell),
        Ok(value) => Ok(value),
        Err(e) => match get_field_value(runtime, cell) {
            Ok(value) => Ok(value),
            Err(_) => Err(e),
        },
    }
}

/// A cell that stores null is `Null`, whatever its column was declared as.
pub proof fn lemma_null_cell_is_null(declared: Seq<char>, runtime: Seq<char>, cell: Cell)
    requires
        cell.stored is Null,
    ensures
        coerced(declared, runtime, cell) == Ok::<Value, Seq<char>>(Value::Null),
{
}

/// Where the declared type fits what the cell stores, the first pass is the
/// result and the runtime type plays no part.
pub proof fn lemma_fitting_type_decides(declared: Seq<char>, runtime: Seq<char>, cell: Cell)
    requires
        fits(declared, cell),
    ensures
        !(cell.stored is Null),
        coerced(declared, runtime, cell) == Ok::<Value, Seq<char>>(field_value(declared, cell)->0),
        forall|other: Seq<char>| coerced(declared, other, cell) == coerced(declared, runtime, cell),
{
}

/// Where the declared and the runtime type are the same name, the second pass
/// changes nothing: the result is the cell read by that one name.
pub proof fn lemma_same_type_single_pass(sql_type: Seq<char>, cell: Cell)
    requires
        !(cell.stored is Null),
    ensures
        coerced(sql_type, sql_type, cell) == match field_value(sql_type, cell) {
            Some(value) => Ok::<Value, Seq<char>>(value),
            None => Err(sql_type),
        },
{
}

/// Where the declared type does not fit what the cell stores, the runtime
/// type decides the result.
pub proof fn lemma_runtime_type_decides(declared: Seq<char>, runtime: Seq<char>, cell: Cell)
    requires
        !(cell.stored is Null),
        !fits(declared, cell),
    ensures
        coerced(declared, runtime, cell) == second_pass(declared, runtime, cell),
        is_recognized(runtime) ==> coerced(declared, runtime, cell) == Ok::<Value, Seq<char>>(
            field_value(runtime, cell)->0,
        ),
{
}

/// Coercion fails exactly on a cell that is not null, that the declared type
/// does not fit, and whose runtime type name is unknown. No cell with a known
/// runtime type name is ever refused, and none is dropped.
pub proof fn lemma_failure_condition(declared: Seq<char>, runtime: Seq<char>, cell: Cell)
    ensures
        coerced(declared, runtime, cell) is Err <==> !(cell.stored is Null) && !fits(
            declared,
            cell,
        ) && !is_recognized(runtime),
        coerced(declared, runtime, cell) is Err ==> coerced(declared, runtime, cell)
            == Err::<Value, Seq<char>>(
            if is_recognized(declared) {
                runtime
            } else {
                declared
            },
        ),
{
}

/// The name of the storage class of what a cell stores, which is the runtime
/// type name that the source engine reports for the cell.
pub open spec fn storage_class(stored: Storage) -> Seq<char> {
    match stored {
        Storage::Null => "NULL"@,
        Storage::Integer(_) => "INTEGER"@,
        Storage::Real(_) => "REAL"@,
        Storage::Text(_) => "TEXT"@,
        Storage::Blob(_) => "BLOB"@,
    }
}

/// The storage class of what a cell stores fits the cell: a column declared
/// as that class is read in the first pass, and the value is the stored one.
pub proof fn lemma_own_class_fits(cell: Cell)
    requires
        !(cell.stored is Null),
    ensures
        fits(storage_class(cell.stored), cell),
        field_value(storage_class(cell.stored), cell) == Some(
            match cell.stored {
                Storage::Integer(v) => Value::Int64(v),
                Storage::Real(bits) => Value::Double(bits),
                Storage::Text(s) => Value::String(s),
                Storage::Blob(b) => Value::Binary(b),
                Storage::Null => Value::Null,
            },
        ),
{
    reveal_strlit("BOOLEAN");
    reveal_strlit("INTEGER");
    reveal_strlit("REAL");
    reveal_strlit("TEXT");
    reveal_strlit("DATETIME");
    reveal_strlit("BLOB");
    reveal_strlit("NULL");
    let class = storage_class(cell.stored);
    match cell.stored {
        Storage::Integer(_) => {
            assert(class[0] == 'I');
        },
        Storage::Real(_) => {
            assert(class[0] == 'R');
        },
        Storage::Text(_) => {
            assert(class[0] == 'T');
        },
        _ => {
            assert(class.len() == 4 && class[1] == 'L');
        },
    }
}

/// With the cell's own storage class as its runtime type, coercion never
/// fails, whatever the column was declared as, and a cell that is not null
/// never becomes `Null`.
pub proof fn lemma_storage_class_always_reads(declared: Seq<char>, cell: Cell)
    ensures
        coerced(declared, storage_class(cell.stored), cell) is Ok,
        !(cell.stored is Null) ==> coerced(declared, storage_class(cell.stored), cell)
            != Ok::<Value, Seq<char>>(Value::Null),
{
    if !(cell.stored is Null) {
        lemma_own_class_fits(cell);
    }
}

} // verus!
