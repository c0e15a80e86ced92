//! Migration of a dynamically typed relational database into a document
//! store: one source table becomes one collection, one row one document.
//!
//! The library holds what such a migration decides and computes, on plain
//! values, and leaves the reading and the writing to its caller:
//!
//! - [`value`]: what a source cell stores, and the values of the document
//!   store;
//! - [`coerce`]: the typing of one cell, by the declared type of its column
//!   and, where that does not fit, by the type of what the cell stores;
//! - [`document`] and [`builder`]: documents, and the document of a row;
//! - [`casing`]: field names in lower camel case;
//! - [`schema`]: which tables are the user's;
//! - [`confirm`]: the operator's consent to dropping the destination;
//! - [`migrate`]: the run as a machine from events to actions;
//! - [`run`]: whole runs, and what holds of them.

pub mod builder;
pub mod casing;
pub mod coerce;
pub mod confirm;
pub mod document;
pub mod migrate;
pub mod row;
pub mod run;
pub mod schema;
pub mod text;
pub mod value;
