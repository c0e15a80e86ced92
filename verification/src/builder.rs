//! The assembly of a row's typed values into a document.

use vstd::prelude::*;
use crate::casing::{field_name, to_field_name};
use crate::coerce::{
    coerce_cell, coerced, field_value, fits, is_recognized, lemma_fitting_type_decides,
    lemma_own_class_fits, lemma_runtime_type_decides, storage_class,
};
use crate::document::{
    has_key, keys_distinct, lemma_put_keeps_distinct, lemma_put_keeps_others, lookup, put,
    Document, Fields,
};
use crate::row::{Cells, Row};
use crate::value::Value;

verus! {

/// A column whose cell could not be typed.
#[derive(Debug, Clone, PartialEq, Eq)]
pub struct ColumnError {
    /// The name of the column.
    pub column: String,
    /// The type name that no rule reads.
    pub sql_type: String,
}

/// The mathematical content of a [`ColumnError`].
pub struct Unreadable {
    pub column: Seq<char>,
    pub sql_type: Seq<char>,
}

impl View for ColumnError {
    type V = Unreadable;

    open spec fn view(&self) -> Unreadable {
        Unreadable { column: self.column@, sql_type: self.sql_type@ }
    }
}

/// The document of a row: its cells, in column order, each typed and set
/// under its field name. The first cell that cannot be typed is the error.
pub open spec fn document_of(cells: Cells, lower_camel: bool) -> Result<Fields, Unreadable>
    decreases cells.len(),
{
    if cells.len() == 0 {
        Ok(Fields::empty())
    } else {
        let (column, cell) = cells.last();
        match document_of(cells.drop_last(), lower_camel) {
            Err(e) => Err(e),
            Ok(fields) => match coerced(column.declared_type, column.runtime_type, cell) {
                Err(sql_type) => Err(Unreadable { column: column.name, sql_type }),
                Ok(value) => Ok(put(fields, field_name(column.name, lower_camel), value)),
            },
        }
    }
}

/// Builds the document of one row. Each cell is typed by its column's
/// declared type, with the runtime type as fallback, and stored under the
/// column's name, or under its lower camel case form if `lower_camel` is set.
/// Where two columns come to the same field name, the later value takes the
/// place of the earlier one.
pub fn create_mongo_document(row: &Row, lower_camel: bool) -> (out: Result<Document, ColumnError>)
    ensures
        match out {
            Ok(doc) => doc.wf() && document_of(row@, lower_camel) == Ok::<Fields, Unreadable>(
                doc@,
            ),
            Err(e) => document_of(row@, lower_camel) == Err::<Fields, Unreadable>(e@),
        },
{
    let mut doc = Document::new();
    let mut i: usize = 0;
    while i < row.cells.len()
        invariant
            i <= row.cells.len(),
            doc.wf(),
            document_of(row@.take(i as int), lower_camel) == Ok::<Fields, Unreadable>(doc@),
        decreases row.cells.len() - i,
    {
        let column = &row.cells[i].0;
        let cell = &row.cells[i].1;
        proof {
            let next = row@.take(i + 1);
            assert(next.drop_last() =~= row@.take(i as int));
            assert(next.last() == (column@, cell@));
            lemma_failure_is_final(next, row@, lower_camel);
        }
        match coerce_cell(column.declared_type.as_str(), column.runtime_type.as_str(), cell) {
            Ok(value) => {
                doc.insert(to_field_name(column.name.as_str(), lower_camel), value);
            },
            Err(e) => {
                return Err(ColumnError { column: column.name.clone(), sql_type: e.sql_type });
            },
        }
        i = i + 1;
    }
    assert(row@.take(i as int) =~= row@);
    Ok(doc)
}

/// Once a cell cannot be typed, the cells after it change nothing: the row
/// fails with that cell's error.
pub proof fn lemma_failure_is_final(prefix: Cells, cells: Cells, lower_camel: bool)
    requires
        prefix.len() <= cells.len(),
        prefix =~= cells.take(prefix.len() as int),
    ensures
        document_of(prefix, lower_camel) is Err ==> document_of(cells, lower_camel)
            == document_of(prefix, lower_camel),
    decreases cells.len() - prefix.len(),
{
    if prefix.len() < cells.len() {
        let longer = cells.take(prefix.len() as int + 1);
        assert(longer.drop_last() =~= prefix);
        lemma_failure_is_final(longer, cells, lower_camel);
    } else {
        assert(prefix =~= cells);
    }
}

/// Whether the columns of a row come to field names that are all different.
pub open spec fn names_distinct(cells: Cells, lower_camel: bool) -> bool {
    forall|i: int, j: int|
        0 <= i < j < cells.len() ==> field_name((#[trigger] cells[i]).0.name, lower_camel)
            != field_name((#[trigger] cells[j]).0.name, lower_camel)
}

/// The document of a row has no field name twice, and no more fields than
/// the row has columns.
pub proof fn lemma_document_keys_distinct(cells: Cells, lower_camel: bool)
    requires
        document_of(cells, lower_camel) is Ok,
    ensures
        keys_distinct(document_of(cells, lower_camel)->Ok_0),
        document_of(cells, lower_camel)->Ok_0.len() <= cells.len(),
    decreases cells.len(),
{
    if cells.len() > 0 {
        let (column, cell) = cells.last();
        lemma_document_keys_distinct(cells.drop_last(), lower_camel);
        let fields = document_of(cells.drop_last(), lower_camel)->Ok_0;
        let value = coerced(column.declared_type, column.runtime_type, cell)->Ok_0;
        lemma_put_keeps_distinct(fields, field_name(column.name, lower_camel), value);
    }
}

/// Where the columns of a row come to different field names, the document
/// has one field for each column, in column order: the field's name is the
/// column's field name and its value is the cell's value.
pub proof fn lemma_fields_follow_columns(cells: Cells, lower_camel: bool)
    requires
        document_of(cells, lower_camel) is Ok,
        names_distinct(cells, lower_camel),
    ensures
        document_of(cells, lower_camel)->Ok_0.len() == cells.len(),
        forall|i: int|
            0 <= i < cells.len() ==> {
                let (column, cell) = #[trigger] cells[i];
                &&& coerced(column.declared_type, column.runtime_type, cell) is Ok
                &&& document_of(cells, lower_camel)->Ok_0[i] == (
                    field_name(column.name, lower_camel),
                    coerced(column.declared_type, column.runtime_type, cell)->Ok_0,
                )
            },
    decreases cells.len(),
{
    if cells.len() > 0 {
        let shorter = cells.drop_last();
        let (column, cell) = cells.last();
        let key = field_name(column.name, lower_camel);
        assert forall|i: int, j: int| 0 <= i < j < shorter.len() implies field_name(
            (#[trigger] shorter[i]).0.name,
            lower_camel,
        ) != field_name((#[trigger] shorter[j]).0.name, lower_camel) by {
            assert(shorter[i] == cells[i] && shorter[j] == cells[j]);
        }
        lemma_fields_follow_columns(shorter, lower_camel);
        let fields = document_of(shorter, lower_camel)->Ok_0;
        assert forall|k: int| 0 <= k < fields.len() implies (#[trigger] fields[k]).0 != key by {
            assert(shorter[k] == cells[k]);
            assert(cells[cells.len() - 1] == cells.last());
        }
        assert forall|i: int| 0 <= i < cells.len() implies ({
            let (column, cell) = #[trigger] cells[i];
            &&& coerced(column.declared_type, column.runtime_type, cell) is Ok
            &&& document_of(cells, lower_camel)->Ok_0[i] == (
                field_name(column.name, lower_camel),
                coerced(column.declared_type, column.runtime_type, cell)->Ok_0,
            )
        }) by {
            if i < shorter.len() {
                assert(shorter[i] == cells[i]);
            }
        }
    }
}

/// The value of the cell of the column at `at`.
pub open spec fn cell_value(cells: Cells, at: int) -> Result<Value, Seq<char>> {
    coerced(cells[at].0.declared_type, cells[at].0.runtime_type, cells[at].1)
}

/// Whether no column after the one at `at` comes to the same field name.
pub open spec fn last_of_its_name(cells: Cells, at: int, lower_camel: bool) -> bool {
    forall|j: int|
        at < j < cells.len() ==> field_name((#[trigger] cells[j]).0.name, lower_camel)
            != field_name(cells[at].0.name, lower_camel)
}

/// A row has a document exactly if each of its cells has a value. So a cell
/// that stores null never fails a row, whatever its column was declared as.
pub proof fn lemma_document_iff_cells(cells: Cells, lower_camel: bool)
    ensures
        document_of(cells, lower_camel) is Ok <==> forall|i: int|
            0 <= i < cells.len() ==> #[trigger] cell_value(cells, i) is Ok,
    decreases cells.len(),
{
    if cells.len() > 0 {
        let shorter = cells.drop_last();
        lemma_document_iff_cells(shorter, lower_camel);
        assert(cells[cells.len() - 1] == cells.last());
        assert forall|i: int| 0 <= i < shorter.len() implies cell_value(shorter, i) == cell_value(
            cells,
            i,
        ) by {
            assert(shorter[i] == cells[i]);
        }
        if document_of(cells, lower_camel) is Ok {
            assert forall|i: int| 0 <= i < cells.len() implies #[trigger] cell_value(
                cells,
                i,
            ) is Ok by {
                if i < shorter.len() {
                    assert(cell_value(shorter, i) is Ok);
                }
            }
        } else if document_of(shorter, lower_camel) is Ok {
            assert(!(cell_value(cells, cells.len() - 1) is Ok));
        } else {
            let i = choose|i: int| 0 <= i < shorter.len() && !(#[trigger] cell_value(
                shorter,
                i,
            ) is Ok);
            assert(!(cell_value(cells, i) is Ok));
        }
    }
}

/// Every column has its field: the document holds the field name of each
/// column of the row. The field has the value of the last column that comes
/// to that name.
pub proof fn lemma_last_column_decides(cells: Cells, lower_camel: bool, at: int)
    requires
        document_of(cells, lower_camel) is Ok,
        0 <= at < cells.len(),
    ensures
        cell_value(cells, at) is Ok,
        has_key(document_of(cells, lower_camel)->Ok_0, field_name(cells[at].0.name, lower_camel)),
        last_of_its_name(cells, at, lower_camel) ==> lookup(
            document_of(cells, lower_camel)->Ok_0,
            field_name(cells[at].0.name, lower_camel),
        ) == Some(cell_value(cells, at)->Ok_0),
    decreases cells.len(),
{
    let shorter = cells.drop_last();
    let (column, cell) = cells.last();
    let fields = document_of(shorter, lower_camel)->Ok_0;
    let value = coerced(column.declared_type, column.runtime_type, cell)->Ok_0;
    let key = field_name(column.name, lower_camel);
    let mine = field_name(cells[at].0.name, lower_camel);
    lemma_document_keys_distinct(shorter, lower_camel);
    lemma_put_keeps_distinct(fields, key, value);
    if at < shorter.len() {
        assert(shorter[at] == cells[at]);
        lemma_last_column_decides(shorter, lower_camel, at);
        if mine != key {
            lemma_put_keeps_others(fields, key, value, mine);
        }
        if last_of_its_name(cells, at, lower_camel) {
            assert(cells[cells.len() - 1] == cells.last());
            assert forall|j: int| at < j < shorter.len() implies field_name(
                (#[trigger] shorter[j]).0.name,
                lower_camel,
            ) != mine by {
                assert(shorter[j] == cells[j]);
            }
        }
    }
}

/// A column whose cell stores null gives a `Null` field, whatever the column
/// was declared as, unless a later column takes the field's name.
pub proof fn lemma_null_cell_gives_null_field(cells: Cells, lower_camel: bool, at: int)
    requires
        document_of(cells, lower_camel) is Ok,
        0 <= at < cells.len(),
        last_of_its_name(cells, at, lower_camel),
        cells[at].1.stored is Null,
    ensures
        lookup(
            document_of(cells, lower_camel)->Ok_0,
            field_name(cells[at].0.name, lower_camel),
        ) == Some(Value::Null),
{
    lemma_last_column_decides(cells, lower_camel, at);
}

/// A column whose declared type fits its cell gives the field that the
/// declared type reads, which is not `Null`; the runtime type plays no part.
/// This holds unless a later column takes the field's name.
pub proof fn lemma_fitting_type_gives_field(cells: Cells, lower_camel: bool, at: int)
    requires
        document_of(cells, lower_camel) is Ok,
        0 <= at < cells.len(),
        last_of_its_name(cells, at, lower_camel),
        fits(cells[at].0.declared_type, cells[at].1),
    ensures
        lookup(
            document_of(cells, lower_camel)->Ok_0,
            field_name(cells[at].0.name, lower_camel),
        ) == field_value(cells[at].0.declared_type, cells[at].1),
        field_value(cells[at].0.declared_type, cells[at].1) != Some(Value::Null),
{
    lemma_last_column_decides(cells, lower_camel, at);
    lemma_fitting_type_decides(cells[at].0.declared_type, cells[at].0.runtime_type, cells[at].1);
}

/// A column whose declared type does not fit its cell, which is not null,
/// gives the field that the runtime type reads. This holds unless a later
/// column takes the field's name.
pub proof fn lemma_runtime_type_gives_field(cells: Cells, lower_camel: bool, at: int)
    requires
        document_of(cells, lower_camel) is Ok,
        0 <= at < cells.len(),
        last_of_its_name(cells, at, lower_camel),
        !(cells[at].1.stored is Null),
        !fits(cells[at].0.declared_type, cells[at].1),
    ensures
        is_recognized(cells[at].0.runtime_type),
        lookup(
            document_of(cells, lower_camel)->Ok_0,
            field_name(cells[at].0.name, lower_camel),
        ) == field_value(cells[at].0.runtime_type, cells[at].1),
{
    lemma_last_column_decides(cells, lower_camel, at);
    lemma_runtime_type_decides(cells[at].0.declared_type, cells[at].0.runtime_type, cells[at].1);
}

/// A column whose cell is not null and whose declared type or runtime type
/// is the storage class of the cell gives a field that is not `Null`; with
/// the declared type it is the stored value itself. This holds unless a
/// later column takes the field's name.
pub proof fn lemma_own_class_gives_field(cells: Cells, lower_camel: bool, at: int)
    requires
        document_of(cells, lower_camel) is Ok,
        0 <= at < cells.len(),
        last_of_its_name(cells, at, lower_camel),
        !(cells[at].1.stored is Null),
        cells[at].0.declared_type == storage_class(cells[at].1.stored)
            || cells[at].0.runtime_type == storage_class(cells[at].1.stored),
    ensures
        lookup(
            document_of(cells, lower_camel)->Ok_0,
            field_name(cells[at].0.name, lower_camel),
        ) matches Some(value) && value != Value::Null,
        cells[at].0.declared_type == storage_class(cells[at].1.stored) ==> lookup(
            document_of(cells, lower_camel)->Ok_0,
            field_name(cells[at].0.name, lower_camel),
        ) == field_value(storage_class(cells[at].1.stored), cells[at].1),
{
    let (column, cell) = cells[at];
    lemma_own_class_fits(cell);
    if fits(column.declared_type, cell) {
        lemma_fitting_type_gives_field(cells, lower_camel, at);
    } else {
        lemma_runtime_type_gives_field(cells, lower_camel, at);
    }
}

} // verus!
