//! Where the cells of one identity lie: the listing that the table's type
//! index holds, defined from the identities of the rows alone.

use vstd::prelude::*;
use crate::access::TableIndex;
use crate::anonymous::Anonymous;
use crate::row::AnonymousRow;

verus! {

/// The coordinates, by ascending column, of the entries of `ids` that equal
/// `id`, for a row at position `row`.
pub open spec fn row_locations(row: usize, ids: Seq<u16>, id: u16) -> Seq<TableIndex>
    decreases ids.len(),
{
    if ids.len() == 0 {
        Seq::empty()
    } else {
        let before = row_locations(row, ids.drop_last(), id);
        if ids.last() == id {
            before.push(TableIndex { row, column: (ids.len() - 1) as usize })
        } else {
            before
        }
    }
}

/// The coordinates of the entries of `rows` that equal `id`, row after row,
/// and by ascending column within a row.
pub open spec fn table_locations(rows: Seq<Seq<u16>>, id: u16) -> Seq<TableIndex>
    decreases rows.len(),
{
    if rows.len() == 0 {
        Seq::empty()
    } else {
        table_locations(rows.drop_last(), id) + row_locations(
            (rows.len() - 1) as usize,
            rows.last(),
            id,
        )
    }
}

/// The identities of the cells of `rows`, row by row.
pub open spec fn id_rows(rows: Seq<AnonymousRow>) -> Seq<Seq<u16>> {
    Seq::new(rows.len(), |i: int| rows[i].ids())
}

/// What a checked read of the cell at `location` as `T` yields, in plain
/// form: that of the value, where the cell exists, accepts `T`, and its
/// content is a `T`.
pub open spec fn value_at<T: Anonymous>(rows: Seq<AnonymousRow>, location: TableIndex) -> Option<
    Seq<int>,
> {
    if location.row < rows.len() {
        rows[location.row as int].value_at::<T>(location.column as int)
    } else {
        None
    }
}

/// What checked reads as `T` yield at `locations`, in that order and in plain
/// form. A coordinate whose read yields nothing adds nothing.
pub open spec fn values_at<T: Anonymous>(
    rows: Seq<AnonymousRow>,
    locations: Seq<TableIndex>,
) -> Seq<Seq<int>>
    decreases locations.len(),
{
    if locations.len() == 0 {
        Seq::empty()
    } else {
        let before = values_at::<T>(rows, locations.drop_last());
        match value_at::<T>(rows, locations.last()) {
            Some(value) => before.push(value),
            None => before,
        }
    }
}

/// `first` comes before `second` in row-major order.
pub open spec fn precedes(first: TableIndex, second: TableIndex) -> bool {
    first.row < second.row || (first.row == second.row && first.column < second.column)
}

/// Listing the first `n + 1` entries of a row adds the coordinate of entry `n`
/// to the listing of the first `n`, where that entry equals `id`.
pub proof fn lemma_row_locations_step(row: usize, ids: Seq<u16>, n: int, id: u16)
    requires
        0 <= n < ids.len(),
    ensures
        row_locations(row, ids.take(n + 1), id) == if ids[n] == id {
            row_locations(row, ids.take(n), id).push(TableIndex { row, column: n as usize })
        } else {
            row_locations(row, ids.take(n), id)
        },
{
    assert(ids.take(n + 1).drop_last() =~= ids.take(n));
}

/// Reading the first `n + 1` coordinates adds what the read at coordinate `n`
/// yields to the values of the first `n`.
pub proof fn lemma_values_at_step<T: Anonymous>(
    rows: Seq<AnonymousRow>,
    locations: Seq<TableIndex>,
    n: int,
)
    requires
        0 <= n < locations.len(),
    ensures
        values_at::<T>(rows, locations.take(n + 1)) == match value_at::<T>(rows, locations[n]) {
            Some(value) => values_at::<T>(rows, locations.take(n)).push(value),
            None => values_at::<T>(rows, locations.take(n)),
        },
{
    assert(locations.take(n + 1).drop_last() =~= locations.take(n));
}

/// Listing the first `n + 1` rows adds the listing of row `n` to that of the
/// first `n`.
pub proof fn lemma_table_locations_step(rows: Seq<Seq<u16>>, n: int, id: u16)
    requires
        0 <= n < rows.len(),
    ensures
        table_locations(rows.take(n + 1), id) == table_locations(rows.take(n), id)
            + row_locations(n as usize, rows[n], id),
{
    assert(rows.take(n + 1).drop_last() =~= rows.take(n));
}

/// A table with one more row lists what it listed before, then the new row.
pub proof fn lemma_table_locations_push(rows: Seq<Seq<u16>>, ids: Seq<u16>, id: u16)
    ensures
        table_locations(rows.push(ids), id) == table_locations(rows, id) + row_locations(
            rows.len() as usize,
            ids,
            id,
        ),
{
    assert(rows.push(ids).drop_last() =~= rows);
}

/// Every coordinate of `listing` names an entry of `rows` that equals `id`.
pub open spec fn all_match(listing: Seq<TableIndex>, rows: Seq<Seq<u16>>, id: u16) -> bool {
    forall|k: int|
        0 <= k < listing.len() ==> {
            let at = #[trigger] listing[k];
            &&& at.row < rows.len()
            &&& at.column < rows[at.row as int].len()
            &&& rows[at.row as int][at.column as int] == id
        }
}

/// Every entry of `rows` that equals `id` has its coordinate in `listing`.
pub open spec fn none_missing(listing: Seq<TableIndex>, rows: Seq<Seq<u16>>, id: u16) -> bool {
    forall|row: int, column: int|
        0 <= row < rows.len() && 0 <= column < rows[row].len() && #[trigger] rows[row][column]
            == id ==> listing.contains(TableIndex { row: row as usize, column: column as usize })
}

/// The coordinates of `listing` come in row-major order, none of them twice.
pub open spec fn row_major(listing: Seq<TableIndex>) -> bool {
    forall|i: int, j: int|
        0 <= i < j < listing.len() ==> precedes(#[trigger] listing[i], #[trigger] listing[j])
}

/// The listing of one row holds exactly the columns whose entry equals `id`,
/// each once, by ascending column.
pub proof fn lemma_row_locations_exact(row: usize, ids: Seq<u16>, id: u16)
    requires
        ids.len() <= usize::MAX,
    ensures
        forall|k: int|
            0 <= k < row_locations(row, ids, id).len() ==> {
                let at = #[trigger] row_locations(row, ids, id)[k];
                &&& at.row == row
                &&& at.column < ids.len()
                &&& ids[at.column as int] == id
            },
        forall|column: int|
            0 <= column < ids.len() && #[trigger] ids[column] == id ==> row_locations(
                row,
                ids,
                id,
            ).contains(TableIndex { row, column: column as usize }),
        row_major(row_locations(row, ids, id)),
    decreases ids.len(),
{
    if ids.len() > 0 {
        let shorter = ids.drop_last();
        let before = row_locations(row, shorter, id);
        let listing = row_locations(row, ids, id);
        lemma_row_locations_exact(row, shorter, id);
        assert forall|column: int|
            0 <= column < ids.len() && #[trigger] ids[column] == id implies listing.contains(
            TableIndex { row, column: column as usize },
        ) by {
            let wanted = TableIndex { row, column: column as usize };
            if column < ids.len() - 1 {
                assert(shorter[column] == id);
                let k = choose|k: int| 0 <= k < before.len() && before[k] == wanted;
                assert(listing[k] == wanted);
            } else {
                assert(listing[before.len() as int] == wanted);
            }
        }
    }
}

/// The listing of a table holds exactly the coordinates of the entries that
/// equal `id`, each once, in row-major order.
pub proof fn lemma_table_locations_exact(rows: Seq<Seq<u16>>, id: u16)
    requires
        rows.len() <= usize::MAX,
        forall|row: int| 0 <= row < rows.len() ==> (#[trigger] rows[row]).len() <= usize::MAX,
    ensures
        all_match(table_locations(rows, id), rows, id),
        none_missing(table_locations(rows, id), rows, id),
        row_major(table_locations(rows, id)),
    decreases rows.len(),
{
    if rows.len() > 0 {
        let earlier = rows.drop_last();
        let before = table_locations(earlier, id);
        let added = row_locations((rows.len() - 1) as usize, rows.last(), id);
        let listing = table_locations(rows, id);
        lemma_table_locations_exact(earlier, id);
        lemma_row_locations_exact((rows.len() - 1) as usize, rows.last(), id);
        assert forall|row: int, column: int|
            0 <= row < rows.len() && 0 <= column < rows[row].len() && #[trigger] rows[row][column]
                == id implies listing.contains(
            TableIndex { row: row as usize, column: column as usize },
        ) by {
            let wanted = TableIndex { row: row as usize, column: column as usize };
            if row < rows.len() - 1 {
                assert(earlier[row][column] == id);
                let k = choose|k: int| 0 <= k < before.len() && before[k] == wanted;
                assert(listing[k] == wanted);
            } else {
                let k = choose|k: int| 0 <= k < added.len() && added[k] == wanted;
                assert(listing[before.len() + k] == wanted);
            }
        }
    }
}

/// Where the read at every coordinate of `locations` yields a value, there is
/// one value for each coordinate, in the same order.
pub proof fn lemma_values_at_all_present<T: Anonymous>(
    rows: Seq<AnonymousRow>,
    locations: Seq<TableIndex>,
)
    requires
        forall|k: int|
            0 <= k < locations.len() ==> value_at::<T>(rows, #[trigger] locations[k]).is_some(),
    ensures
        values_at::<T>(rows, locations).len() == locations.len(),
        forall|k: int|
            0 <= k < locations.len() ==> value_at::<T>(rows, locations[k]) == Some(
                #[trigger] values_at::<T>(rows, locations)[k],
            ),
    decreases locations.len(),
{
    if locations.len() > 0 {
        lemma_values_at_all_present::<T>(rows, locations.drop_last());
    }
}

/// Reading two lists of coordinates one after the other yields the values of
/// the first list, then those of the second.
pub proof fn lemma_values_at_concat<T: Anonymous>(
    rows: Seq<AnonymousRow>,
    first: Seq<TableIndex>,
    second: Seq<TableIndex>,
)
    ensures
        values_at::<T>(rows, first + second) == values_at::<T>(rows, first) + values_at::<T>(
            rows,
            second,
        ),
    decreases second.len(),
{
    if second.len() > 0 {
        lemma_values_at_concat::<T>(rows, first, second.drop_last());
        assert((first + second).drop_last() =~= first + second.drop_last());
    }
}

/// Two tables that yield the same at every coordinate of `locations` yield
/// the same values over the whole of it.
pub proof fn lemma_values_at_agree<T: Anonymous>(
    rows: Seq<AnonymousRow>,
    other: Seq<AnonymousRow>,
    locations: Seq<TableIndex>,
)
    requires
        forall|k: int|
            0 <= k < locations.len() ==> value_at::<T>(rows, #[trigger] locations[k])
                == value_at::<T>(other, locations[k]),
    ensures
        values_at::<T>(rows, locations) == values_at::<T>(other, locations),
    decreases locations.len(),
{
    if locations.len() > 0 {
        lemma_values_at_agree::<T>(rows, other, locations.drop_last());
    }
}

} // verus!
