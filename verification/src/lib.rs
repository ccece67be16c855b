//! An in-memory table of rows whose cells each hold a value of any type.
//!
//! A row is an ordered sequence of type-erased cells. The table keeps its rows
//! in the order in which they were registered and finds cells by their type,
//! and rows by position, by name or by tag.

pub mod access;
pub mod anonymous;
pub mod index;
pub mod laws;
pub mod locations;
pub mod row;
pub mod table;

pub use access::{RowName, TableIndex, Tag};
pub use anonymous::{Anonymous, AnonymousCell, OPTION_OFFSET};
pub use row::AnonymousRow;
pub use table::AnonymousTable;
