//! Building the type index: from the identities of the cells of each row to
//! the coordinates of the cells of each identity.

use std::collections::HashMap;
use vstd::prelude::*;
use crate::access::TableIndex;
use crate::locations::{
    id_rows, lemma_row_locations_step, lemma_table_locations_step, row_locations, table_locations,
};
use crate::row::AnonymousRow;

verus! {

broadcast use vstd::std_specs::hash::group_hash_axioms;

/// The coordinates that `index` holds for `id`: none where it has no entry.
pub open spec fn listed(index: Map<u16, Vec<TableIndex>>, id: u16) -> Seq<TableIndex> {
    if index.contains_key(id) {
        index[id]@
    } else {
        Seq::empty()
    }
}

/// Adds the coordinates of a row at position `row`, whose cells have the
/// identities `ids`, to the lists of `index`.
pub fn index_row(index: &mut HashMap<u16, Vec<TableIndex>>, row: usize, ids: &Vec<u16>)
    ensures
        forall|id: u16| #[trigger]
            listed(final(index)@, id) == listed(old(index)@, id) + row_locations(row, ids@, id),
{
    let mut column: usize = 0;
    while column < ids.len()
        invariant
            column <= ids.len(),
            forall|id: u16| #[trigger]
                listed(index@, id) == listed(old(index)@, id) + row_locations(
                    row,
                    ids@.take(column as int),
                    id,
                ),
        decreases ids.len() - column,
    {
        let id = ids[column];
        let ghost before = index@;
        let mut list = match index.remove(&id) {
            Some(list) => list,
            None => Vec::new(),
        };
        list.push(TableIndex { row, column });
        index.insert(id, list);
        proof {
            assert forall|other: u16| #[trigger]
                listed(index@, other) == listed(old(index)@, other) + row_locations(
                    row,
                    ids@.take(column + 1),
                    other,
                ) by {
                lemma_row_locations_step(row, ids@, column as int, other);
                if other == id {
                    assert(listed(index@, other) == listed(before, other).push(
                        TableIndex { row, column },
                    ));
                } else {
                    assert(listed(index@, other) == listed(before, other));
                }
            }
        }
        column += 1;
    }
    assert(ids@.take(column as int) =~= ids@);
}

/// The coordinates of the cells of identity `id` in `rows`, found by looking
/// at every cell.
pub fn locate(rows: &Vec<AnonymousRow>, id: u16) -> (found: Vec<TableIndex>)
    ensures
        found@ == table_locations(id_rows(rows@), id),
{
    let mut found: Vec<TableIndex> = Vec::new();
    let mut row: usize = 0;
    while row < rows.len()
        invariant
            row <= rows.len(),
            found@ == table_locations(id_rows(rows@).take(row as int), id),
        decreases rows.len() - row,
    {
        let ids = rows[row].get_ids();
        let mut column: usize = 0;
        while column < ids.len()
            invariant
                row < rows.len(),
                column <= ids.len(),
                ids@ == id_rows(rows@)[row as int],
                found@ == table_locations(id_rows(rows@).take(row as int), id) + row_locations(
                    row,
                    ids@.take(column as int),
                    id,
                ),
            decreases ids.len() - column,
        {
            proof {
                lemma_row_locations_step(row, ids@, column as int, id);
            }
            if ids[column] == id {
                found.push(TableIndex { row, column });
            }
            column += 1;
        }
        proof {
            assert(ids@.take(column as int) =~= ids@);
            lemma_table_locations_step(id_rows(rows@), row as int, id);
        }
        row += 1;
    }
    assert(id_rows(rows@).take(row as int) =~= id_rows(rows@));
    found
}

} // verus!
