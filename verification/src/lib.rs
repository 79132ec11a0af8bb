//! Relational schema introspection: a verified assembler that turns raw
//! catalog rows into a table/column/relationship graph, a value coercer
//! that maps untyped row values to JSON, and the argument dispatch around
//! them. Database I/O itself stays outside this crate; the assembler and
//! coercer work on the plain values that the catalog queries hand back.

pub mod cli;
pub mod coerce;
pub mod row;
pub mod schema;
