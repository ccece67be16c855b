//! What holds of cells, rows and tables whatever is stored in them.

use vstd::prelude::*;
use vstd::layout::{align_of, size_of};
use crate::access::{RowName, TableIndex, Tag};
use crate::anonymous::{faithful, Anonymous, AnonymousCell};
use crate::locations::{
    all_match, id_rows, lemma_table_locations_exact, lemma_table_locations_push,
    lemma_values_at_agree, lemma_values_at_all_present, lemma_values_at_concat, none_missing,
    row_locations, row_major, value_at, values_at,
};
use crate::row::{grew_at, AnonymousRow};
use crate::table::{row_grew_at, tagged_so_far, AnonymousTable};

verus! {

/// What a cell made for a value yields, when it is read as the type of the
/// value, has the plain form of the value; where the plain form of the type
/// is faithful, it is the value.
pub proof fn law_cell_round_trip<T: Anonymous>(cell: AnonymousCell, value: T, read: T)
    requires
        cell.holds(value),
        cell.value::<T>() == Some(read.plain()),
    ensures
        read.plain() == value.plain(),
        faithful::<T>() ==> read == value,
{
}

/// A cell made for `T` yields nothing when it is read as a type of another
/// identity.
pub proof fn law_type_guard<T: Anonymous, U: Anonymous>(cell: AnonymousCell)
    requires
        cell.accepts::<T>(),
        U::spec_id() != T::spec_id(),
    ensures
        cell.value::<U>().is_none(),
{
}

/// A cell made for `T` yields nothing when it is read as a type of another
/// size or alignment, whatever the identities are.
pub proof fn law_layout_guard<T: Anonymous, U: Anonymous>(cell: AnonymousCell)
    requires
        cell.accepts::<T>(),
        size_of::<U>() != size_of::<T>() || align_of::<U>() != align_of::<T>(),
    ensures
        cell.value::<U>().is_none(),
{
}

/// After a push the row is one cell longer, the earlier columns hold the
/// cells that they held, and the new last column yields the plain form of the
/// pushed value: what is read there is the pushed value, where the plain form
/// of the type is faithful.
pub proof fn law_push_round_trip<T: Anonymous>(
    before: AnonymousRow,
    after: AnonymousRow,
    item: T,
    read: T,
)
    requires
        grew_at(before@, after@, before@.len() as int, item),
        after.value_at::<T>(before@.len() as int) == Some(read.plain()),
    ensures
        after@.len() == before@.len() + 1,
        after.value_at::<T>(before@.len() as int) == Some(item.plain()),
        faithful::<T>() ==> read == item,
        forall|i: int| 0 <= i < before@.len() ==> after@[i] == before@[i],
{
}

/// After a push of a `T`, the new last column yields nothing when it is read
/// as a type of another identity.
pub proof fn law_push_other_type<T: Anonymous, U: Anonymous>(
    before: AnonymousRow,
    after: AnonymousRow,
    item: T,
)
    requires
        grew_at(before@, after@, before@.len() as int, item),
        U::spec_id() != T::spec_id(),
    ensures
        after.value_at::<U>(before@.len() as int).is_none(),
{
}

/// An insertion leaves the columns before it alone, yields the inserted value
/// at its own column, and moves every later cell one column up.
pub proof fn law_insert_shifts<T: Anonymous>(
    before: AnonymousRow,
    after: AnonymousRow,
    column: int,
    item: T,
)
    requires
        grew_at(before@, after@, column, item),
    ensures
        after@.len() == before@.len() + 1,
        after.value_at::<T>(column) == Some(item.plain()),
        forall|i: int| 0 <= i < column ==> after@[i] == before@[i],
        forall|i: int| column <= i < before@.len() ==> after@[i + 1] == before@[i],
{
}

/// A row that was registered under a name is the row that the name leads to.
pub proof fn law_named_row_found(
    before: AnonymousTable,
    after: AnonymousTable,
    row: AnonymousRow,
    name: RowName,
)
    requires
        before.wf(),
        after.rows() == before.rows().push(row),
        after.name_index(name) == Some(before.rows().len() as usize),
    ensures
        after.named_row(name) == Some(row),
{
    before.lemma_bindings_in_range();
}

/// A name that is not bound leads to no row.
pub proof fn law_unbound_name_not_found(table: AnonymousTable, name: RowName)
    requires
        table.name_index(name).is_none(),
    ensures
        table.named_row(name).is_none(),
{
}

/// Registering a row takes no row away from a name or a tag: every binding
/// that is left as it was leads to the rows that it led to.
pub proof fn law_bindings_survive_registration(
    before: AnonymousTable,
    after: AnonymousTable,
    row: AnonymousRow,
)
    requires
        before.wf(),
        after.rows() == before.rows().push(row),
    ensures
        forall|name: RowName|
            after.name_index(name) == before.name_index(name) ==> #[trigger] after.named_row(name)
                == before.named_row(name),
        forall|tag: Tag|
            after.tag_indices(tag) == before.tag_indices(tag) ==> #[trigger] after.tagged_rows(tag)
                == before.tagged_rows(tag),
{
    before.lemma_bindings_in_range();
}

/// `after` is `before` with `row` registered under `tag`: the row is the new
/// last row, and its position the new last one under the tag.
pub open spec fn tagged_registration(
    before: AnonymousTable,
    after: AnonymousTable,
    row: AnonymousRow,
    tag: Tag,
) -> bool {
    &&& after.rows() == before.rows().push(row)
    &&& after.tag_indices(tag) == Some(
        tagged_so_far(before.tag_indices(tag)).push(before.rows().len() as usize),
    )
}

/// A row that is registered under a tag comes behind the rows that the tag
/// led to, which stay in their order.
pub proof fn law_tagged_row_appended(
    before: AnonymousTable,
    after: AnonymousTable,
    row: AnonymousRow,
    tag: Tag,
)
    requires
        before.wf(),
        tagged_registration(before, after, row, tag),
    ensures
        after.tagged_rows(tag) == Some(before.tagged_rows_so_far(tag).push(row)),
{
    before.lemma_bindings_in_range();
}

/// Three rows registered one after the other under a tag that was not in use
/// are the rows that the tag leads to, in the order of their registration.
pub proof fn law_three_tagged_rows(
    start: AnonymousTable,
    after_first: AnonymousTable,
    after_second: AnonymousTable,
    after_third: AnonymousTable,
    first: AnonymousRow,
    second: AnonymousRow,
    third: AnonymousRow,
    tag: Tag,
)
    requires
        start.wf(),
        after_first.wf(),
        after_second.wf(),
        start.tag_indices(tag).is_none(),
        tagged_registration(start, after_first, first, tag),
        tagged_registration(after_first, after_second, second, tag),
        tagged_registration(after_second, after_third, third, tag),
    ensures
        after_third.tagged_rows(tag) == Some(seq![first, second, third]),
{
    law_tagged_row_appended(start, after_first, first, tag);
    law_tagged_row_appended(after_first, after_second, second, tag);
    law_tagged_row_appended(after_second, after_third, third, tag);
}

/// The coordinates that a table lists for an identity are those of the cells
/// of that identity as the rows are now, each once, in row-major order.
pub proof fn law_locations_exact(table: AnonymousTable, id: u16)
    requires
        table.wf(),
    ensures
        all_match(table.locations(id), id_rows(table.rows()), id),
        none_missing(table.locations(id), id_rows(table.rows()), id),
        row_major(table.locations(id)),
{
    table.lemma_bindings_in_range();
    assert forall|row: int| 0 <= row < id_rows(table.rows()).len() implies (#[trigger] id_rows(
        table.rows(),
    )[row]).len() <= usize::MAX by {
        table.rows()[row].lemma_len_fits();
    }
    lemma_table_locations_exact(id_rows(table.rows()), id);
}

/// A table in which no cell has the identity of `T` has no values of type
/// `T`.
pub proof fn law_unregistered_type_has_no_values<T: Anonymous>(table: AnonymousTable)
    requires
        table.wf(),
        forall|row: int, column: int|
            0 <= row < table.rows().len() && 0 <= column < table.rows()[row]@.len()
                ==> (#[trigger] table.rows()[row]@[column]).identity() != T::spec_id(),
    ensures
        table.values_of::<T>() == Seq::<Seq<int>>::empty(),
{
    let listing = table.locations(T::spec_id());
    law_locations_exact(table, T::spec_id());
    if listing.len() > 0 {
        let at = listing[0];
        assert(table.rows()[at.row as int]@[at.column as int].identity() == T::spec_id());
    }
}

/// Where every cell of the identity of `T` yields a `T`, the table has one
/// value of type `T` for each such cell: the k-th value is what the read at
/// the k-th coordinate yields.
pub proof fn law_one_value_for_each_cell<T: Anonymous>(table: AnonymousTable)
    requires
        table.wf(),
        forall|row: int, column: int|
            0 <= row < table.rows().len() && 0 <= column < table.rows()[row]@.len() && (
            #[trigger] table.rows()[row]@[column]).identity() == T::spec_id()
                ==> table.rows()[row].value_at::<T>(column).is_some(),
    ensures
        table.values_of::<T>().len() == table.locations(T::spec_id()).len(),
        forall|k: int|
            0 <= k < table.locations(T::spec_id()).len() ==> value_at::<T>(
                table.rows(),
                table.locations(T::spec_id())[k],
            ) == Some(#[trigger] table.values_of::<T>()[k]),
{
    let listing = table.locations(T::spec_id());
    law_locations_exact(table, T::spec_id());
    assert forall|k: int| 0 <= k < listing.len() implies value_at::<T>(
        table.rows(),
        #[trigger] listing[k],
    ).is_some() by {
        let at = listing[k];
        assert(table.rows()[at.row as int]@[at.column as int].identity() == T::spec_id());
    }
    lemma_values_at_all_present::<T>(table.rows(), listing);
}

/// Registering a row puts its values of a type behind the values that the
/// table had of that type, which stay in their order.
pub proof fn law_values_after_registration<T: Anonymous>(
    before: AnonymousTable,
    after: AnonymousTable,
    row: AnonymousRow,
)
    requires
        before.wf(),
        after.rows() == before.rows().push(row),
    ensures
        after.values_of::<T>() == before.values_of::<T>() + values_at::<T>(
            after.rows(),
            row_locations(before.rows().len() as usize, row.ids(), T::spec_id()),
        ),
{
    let id = T::spec_id();
    let earlier = before.locations(id);
    let added = row_locations(before.rows().len() as usize, row.ids(), id);
    law_locations_exact(before, id);
    assert(id_rows(after.rows()) =~= id_rows(before.rows()).push(row.ids()));
    lemma_table_locations_push(id_rows(before.rows()), row.ids(), id);
    lemma_values_at_concat::<T>(after.rows(), earlier, added);
    lemma_values_at_agree::<T>(after.rows(), before.rows(), earlier);
}

/// After a cell was inserted into a row of the table, the coordinates listed
/// for an identity are those of the cells as they lie after the insertion:
/// in that row, a cell that moved up is listed one column further on.
pub proof fn law_locations_follow_insertion<T: Anonymous>(
    before: AnonymousTable,
    after: AnonymousTable,
    location: TableIndex,
    item: T,
    id: u16,
)
    requires
        before.wf(),
        after.wf(),
        row_grew_at(before.rows(), after.rows(), location, item),
    ensures
        forall|column: int|
            location.column <= column < before.rows()[location.row as int]@.len() ==> (
            before.locations(id).contains(
                TableIndex { row: location.row, column: column as usize },
            ) <==> #[trigger] after.locations(id).contains(
                TableIndex { row: location.row, column: (column + 1) as usize },
            )),
        after.locations(id).contains(location) <==> id == T::spec_id(),
{
    let old_ids = id_rows(before.rows());
    let new_ids = id_rows(after.rows());
    law_locations_exact(before, id);
    law_locations_exact(after, id);
    assert forall|column: int|
        location.column <= column < old_ids[location.row as int].len() implies (
    before.locations(id).contains(TableIndex { row: location.row, column: column as usize })
        <==> #[trigger] after.locations(id).contains(
        TableIndex { row: location.row, column: (column + 1) as usize },
    )) by {
        before.rows()[location.row as int].lemma_len_fits();
        after.rows()[location.row as int].lemma_len_fits();
        assert(new_ids[location.row as int][column + 1] == old_ids[location.row as int][column]);
    }
    assert(new_ids[location.row as int][location.column as int] == T::spec_id());
}

} // verus!
