//! Coordinates and reserved identifiers used to address rows and cells.

use vstd::prelude::*;

verus! {

/// The place of one cell: the position of its row, and its column in that row.
#[derive(Copy, Clone, Debug, Hash, Eq, PartialEq)]
pub struct TableIndex {
    pub row: usize,
    pub column: usize,
}

/// A name binds to exactly one row; binding it again moves it to the newer row.
#[derive(Copy, Clone, Debug, Hash, Eq, PartialEq)]
pub struct RowName(pub u8);

/// A tag binds to any number of rows, kept in the order in which they were tagged.
#[derive(Copy, Clone, Debug, Hash, Eq, PartialEq)]
pub struct Tag(pub u8);

} // verus!
