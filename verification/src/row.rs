//! Source rows: cells with the metadata of their columns.

use vstd::prelude::*;
use crate::value::{Cell, RawCell};

verus! {

/// The metadata of one cell's column. The declared type comes from the
/// schema and is advisory; the runtime type is that of what the cell at hand
/// stores, and may differ from row to row.
#[derive(Debug, Clone, PartialEq, Eq)]
pub struct Column {
    pub name: String,
    pub declared_type: String,
    pub runtime_type: String,
}

/// The mathematical content of a [`Column`].
pub struct ColumnNames {
    pub name: Seq<char>,
    pub declared_type: Seq<char>,
    pub runtime_type: Seq<char>,
}

impl View for Column {
    type V = ColumnNames;

    open spec fn view(&self) -> ColumnNames {
        ColumnNames {
            name: self.name@,
            declared_type: self.declared_type@,
            runtime_type: self.runtime_type@,
        }
    }
}

/// One source row: its cells in column order, each with its column.
#[derive(Debug, Clone, PartialEq, Eq)]
pub struct Row {
    pub cells: Vec<(Column, RawCell)>,
}

/// The mathematical content of a [`Row`].
pub type Cells = Seq<(ColumnNames, Cell)>;

impl View for Row {
    type V = Cells;

    open spec fn view(&self) -> Cells {
        self.cells@.map_values(|c: (Column, RawCell)| (c.0@, c.1@))
    }
}

} // verus!
