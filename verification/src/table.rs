//! The table: rows in registration order, found by position, name, tag or
//! by the type of their cells.

use std::collections::HashMap;
use vstd::prelude::*;
use crate::access::{RowName, TableIndex, Tag};
use crate::anonymous::{plains, Anonymous};
use crate::index::{index_row, listed, locate};
use crate::laws::law_tagged_row_appended;
use crate::locations::{
    id_rows, lemma_table_locations_push, lemma_table_locations_step, lemma_values_at_step,
    row_locations, table_locations, values_at,
};
use crate::row::{grew_at, AnonymousRow};

verus! {

broadcast use vstd::std_specs::hash::group_hash_axioms;

/// The values behind `refs`, in order.
pub open spec fn dereferenced<T>(refs: Seq<&T>) -> Seq<T> {
    Seq::new(refs.len(), |k: int| *refs[k])
}

/// The rows themselves, in registration order.
#[derive(Debug)]
struct TableRaw {
    rows: Vec<AnonymousRow>,
}

impl TableRaw {
    fn get_row(&self, row: usize) -> (r: Option<&AnonymousRow>)
        ensures
            r == (if row < self.rows@.len() {
                Some(&self.rows@[row as int])
            } else {
                None
            }),
    {
        if row < self.rows.len() {
            Some(&self.rows[row])
        } else {
            None
        }
    }

    fn get_row_mut(&mut self, row: usize) -> (r: Option<&mut AnonymousRow>)
        ensures
            match r {
                Some(found) => row < old(self).rows@.len() && *found == old(self).rows@[row as int]
                    && final(self).rows@ == old(self).rows@.update(row as int, *final(found)),
                None => row >= old(self).rows@.len() && final(self).rows@ == old(self).rows@,
            },
    {
        if row < self.rows.len() {
            Some(&mut self.rows[row])
        } else {
            None
        }
    }
}

/// Rows of cells of any type, with three ways to find them again: every cell
/// by its type, a row by its name, rows by their tag.
///
/// Rows are only ever added, so the position of a row never changes. The type
/// index lists coordinates; it is brought up to date whenever the cells of a
/// row may have moved, so a query by type always follows the rows as they are.
#[derive(Debug)]
pub struct AnonymousTable {
    table: TableRaw,
    cell_locations: HashMap<u16, Vec<TableIndex>>,
    names: HashMap<u8, usize>,
    tags: HashMap<u8, Vec<usize>>,
    /// Whether `cell_locations` lists the cells of `table` as they are now.
    synced: bool,
}

impl AnonymousTable {
    /// The rows, in registration order.
    pub closed spec fn rows(&self) -> Seq<AnonymousRow> {
        self.table.rows@
    }

    /// The position of the row that `name` is bound to, if it is bound.
    pub closed spec fn name_index(&self, name: RowName) -> Option<usize> {
        if self.names@.contains_key(name.0) {
            Some(self.names@[name.0])
        } else {
            None
        }
    }

    /// The positions of the rows under `tag`, in the order in which they were
    /// tagged, if the tag was ever used.
    pub closed spec fn tag_indices(&self, tag: Tag) -> Option<Seq<usize>> {
        if self.tags@.contains_key(tag.0) {
            Some(self.tags@[tag.0]@)
        } else {
            None
        }
    }

    /// Every name and every tag leads to a row that exists, and the type index,
    /// unless it is marked as out of date, lists the cells as they are.
    pub closed spec fn wf(&self) -> bool {
        &&& self.synced ==> forall|id: u16| #[trigger]
            listed(self.cell_locations@, id) == table_locations(id_rows(self.table.rows@), id)
        &&& forall|name: u8| #[trigger]
            self.names@.contains_key(name) ==> self.names@[name] < self.table.rows@.len()
        &&& forall|tag: u8, k: int|
            self.tags@.contains_key(tag) && 0 <= k < self.tags@[tag]@.len()
                ==> #[trigger] self.tags@[tag]@[k] < self.table.rows@.len()
    }

    /// In a well-formed table every name and every tagged position leads to
    /// a row that exists, and no count exceeds what a `usize` holds.
    pub proof fn lemma_bindings_in_range(&self)
        requires
            self.wf(),
        ensures
            self.rows().len() <= usize::MAX,
            forall|name: RowName|
                (#[trigger] self.name_index(name)).is_some() ==> self.name_index(name).unwrap()
                    < self.rows().len(),
            forall|tag: Tag, k: int|
                #![trigger self.tag_indices(tag).unwrap()[k]]
                self.tag_indices(tag).is_some() && 0 <= k < self.tag_indices(tag).unwrap().len()
                    ==> self.tag_indices(tag).unwrap()[k] < self.rows().len(),
    {
        assert(self.table.rows.len() == self.table.rows@.len());
    }

    /// The row that `name` is bound to.
    pub open spec fn named_row(&self, name: RowName) -> Option<AnonymousRow> {
        match self.name_index(name) {
            Some(index) => Some(self.rows()[index as int]),
            None => None,
        }
    }

    /// The rows under `tag`, in the order in which they were tagged.
    pub open spec fn tagged_rows(&self, tag: Tag) -> Option<Seq<AnonymousRow>> {
        match self.tag_indices(tag) {
            Some(indices) => Some(rows_at(self.rows(), indices)),
            None => None,
        }
    }

    /// The rows under `tag` so far: none where the tag was never used.
    pub open spec fn tagged_rows_so_far(&self, tag: Tag) -> Seq<AnonymousRow> {
        match self.tagged_rows(tag) {
            Some(rows) => rows,
            None => Seq::empty(),
        }
    }

    /// The coordinates of the cells of identity `id`, in row-major order.
    pub open spec fn locations(&self, id: u16) -> Seq<TableIndex> {
        table_locations(id_rows(self.rows()), id)
    }

    /// The values of type `T` in the table, in row-major order and in plain
    /// form.
    pub open spec fn values_of<T: Anonymous>(&self) -> Seq<Seq<int>> {
        values_at::<T>(self.rows(), self.locations(T::spec_id()))
    }

    /// Both tables bind the same names to the same positions.
    pub open spec fn same_names(&self, other: &Self) -> bool {
        forall|name: RowName|
            #![trigger self.name_index(name)]
            #![trigger other.name_index(name)]
            self.name_index(name) == other.name_index(name)
    }

    /// Both tables hold the same positions under the same tags.
    pub open spec fn same_tags(&self, other: &Self) -> bool {
        forall|tag: Tag|
            #![trigger self.tag_indices(tag)]
            #![trigger other.tag_indices(tag)]
            self.tag_indices(tag) == other.tag_indices(tag)
    }

    /// A table without rows, names or tags.
    pub fn new() -> (table: Self)
        ensures
            table.wf(),
            table.rows() == Seq::<AnonymousRow>::empty(),
            forall|name: RowName| (#[trigger] table.name_index(name)).is_none(),
            forall|tag: Tag| (#[trigger] table.tag_indices(tag)).is_none(),
    {
        Self {
            table: TableRaw { rows: Vec::new() },
            cell_locations: HashMap::new(),
            names: HashMap::new(),
            tags: HashMap::new(),
            synced: true,
        }
    }

    /// Removes every row, every name and every tag.
    pub fn clear(&mut self)
        ensures
            final(self).wf(),
            final(self).rows() == Seq::<AnonymousRow>::empty(),
            forall|name: RowName| (#[trigger] final(self).name_index(name)).is_none(),
            forall|tag: Tag| (#[trigger] final(self).tag_indices(tag)).is_none(),
    {
        self.table.rows.clear();
        self.cell_locations.clear();
        self.names.clear();
        self.tags.clear();
        self.synced = true;
    }

    /// The number of rows.
    pub fn len(&self) -> (n: usize)
        ensures
            n == self.rows().len(),
    {
        self.table.rows.len()
    }

    /// The number of rows that the table can hold before it allocates again.
    pub fn capacity(&self) -> (n: usize)
        ensures
            n >= self.rows().len(),
    {
        capacity_of(&self.table.rows)
    }

    /// Makes room for `increase` more rows.
    pub fn reserve(&mut self, increase: usize)
        requires
            old(self).wf(),
        ensures
            final(self).wf(),
            final(self).rows() == old(self).rows(),
            final(self).same_names(old(self)),
            final(self).same_tags(old(self)),
    {
        self.table.rows.reserve(increase);
    }

    /// Adds to the type index the cells of the row that is registered next,
    /// whose identities are `ids`.
    fn register_row(&mut self, ids: Vec<u16>)
        ensures
            final(self).table.rows@ == old(self).table.rows@,
            final(self).names@ == old(self).names@,
            final(self).tags@ == old(self).tags@,
            final(self).synced == old(self).synced,
            forall|id: u16| #[trigger]
                listed(final(self).cell_locations@, id) == listed(old(self).cell_locations@, id)
                    + row_locations(old(self).table.rows@.len() as usize, ids@, id),
    {
        let row_id = self.table.rows.len();
        index_row(&mut self.cell_locations, row_id, &ids);
    }

    /// Builds the type index anew from the rows as they are.
    fn reindex(&mut self)
        ensures
            final(self).table.rows@ == old(self).table.rows@,
            final(self).names@ == old(self).names@,
            final(self).tags@ == old(self).tags@,
            final(self).synced,
            forall|id: u16| #[trigger]
                listed(final(self).cell_locations@, id) == table_locations(
                    id_rows(final(self).table.rows@),
                    id,
                ),
    {
        self.cell_locations.clear();
        let mut row: usize = 0;
        while row < self.table.rows.len()
            invariant
                row <= self.table.rows@.len(),
                self.table.rows@ == old(self).table.rows@,
                self.names@ == old(self).names@,
                self.tags@ == old(self).tags@,
                forall|id: u16| #[trigger]
                    listed(self.cell_locations@, id) == table_locations(
                        id_rows(self.table.rows@).take(row as int),
                        id,
                    ),
            decreases self.table.rows@.len() - row,
        {
            let ids = self.table.rows[row].get_ids();
            index_row(&mut self.cell_locations, row, &ids);
            proof {
                assert forall|id: u16| #[trigger]
                    listed(self.cell_locations@, id) == table_locations(
                        id_rows(self.table.rows@).take(row + 1),
                        id,
                    ) by {
                    lemma_table_locations_step(id_rows(self.table.rows@), row as int, id);
                }
            }
            row += 1;
        }
        assert(id_rows(self.table.rows@).take(row as int) =~= id_rows(self.table.rows@));
        self.synced = true;
    }

    /// Appends `row` and lists its cells in the type index.
    pub fn push_row(&mut self, row: AnonymousRow)
        requires
            old(self).wf(),
        ensures
            final(self).wf(),
            final(self).rows() == old(self).rows().push(row),
            final(self).same_names(old(self)),
            final(self).same_tags(old(self)),
    {
        if self.synced {
            self.register_row(row.get_ids());
            self.table.rows.push(row);
            proof {
                let before = id_rows(old(self).table.rows@);
                assert(id_rows(self.table.rows@) =~= before.push(row.ids()));
                assert forall|id: u16| #[trigger]
                    listed(self.cell_locations@, id) == table_locations(
                        id_rows(self.table.rows@),
                        id,
                    ) by {
                    lemma_table_locations_push(before, row.ids(), id);
                }
            }
        } else {
            self.table.rows.push(row);
            self.reindex();
        }
    }

    /// `push_row`, on a table that is passed along.
    pub fn chain_push_row(self, row: AnonymousRow) -> (table: Self)
        requires
            self.wf(),
        ensures
            table.wf(),
            table.rows() == self.rows().push(row),
            table.same_names(&self),
            table.same_tags(&self),
    {
        let mut table = self;
        table.push_row(row);
        table
    }

    /// Appends `row` and binds `name` to it. A name that was bound to an
    /// earlier row leaves that row, which stays where it is.
    pub fn register_named_row(&mut self, row: AnonymousRow, name: RowName)
        requires
            old(self).wf(),
        ensures
            final(self).wf(),
            final(self).rows() == old(self).rows().push(row),
            final(self).name_index(name) == Some(old(self).rows().len() as usize),
            final(self).named_row(name) == Some(row),
            forall|other: RowName|
                other != name ==> #[trigger] final(self).name_index(other) == old(self).name_index(
                    other,
                ),
            final(self).same_tags(old(self)),
    {
        let index = self.table.rows.len();
        self.push_row(row);
        self.bind_name(name, index);
    }

    /// Appends `row` and puts it under `tag`, behind the rows that are there.
    pub fn register_tagged_row(&mut self, row: AnonymousRow, tag: Tag)
        requires
            old(self).wf(),
        ensures
            final(self).wf(),
            final(self).rows() == old(self).rows().push(row),
            final(self).tag_indices(tag) == Some(
                tagged_so_far(old(self).tag_indices(tag)).push(old(self).rows().len() as usize),
            ),
            forall|other: Tag|
                other != tag ==> #[trigger] final(self).tag_indices(other) == old(self).tag_indices(
                    other,
                ),
            final(self).tagged_rows(tag) == Some(old(self).tagged_rows_so_far(tag).push(row)),
            final(self).same_names(old(self)),
    {
        let index = self.table.rows.len();
        self.push_row(row);
        self.add_tag(tag, index);
        proof {
            law_tagged_row_appended(*old(self), *self, row, tag);
        }
    }

    /// Appends `row`, binds `name` to it and puts it under `tag`.
    pub fn registed_named_tagged_row(&mut self, row: AnonymousRow, tag: Tag, name: RowName)
        requires
            old(self).wf(),
        ensures
            final(self).wf(),
            final(self).rows() == old(self).rows().push(row),
            final(self).name_index(name) == Some(old(self).rows().len() as usize),
            forall|other: RowName|
                other != name ==> #[trigger] final(self).name_index(other) == old(self).name_index(
                    other,
                ),
            final(self).tag_indices(tag) == Some(
                tagged_so_far(old(self).tag_indices(tag)).push(old(self).rows().len() as usize),
            ),
            forall|other: Tag|
                other != tag ==> #[trigger] final(self).tag_indices(other) == old(self).tag_indices(
                    other,
                ),
            final(self).named_row(name) == Some(row),
            final(self).tagged_rows(tag) == Some(old(self).tagged_rows_so_far(tag).push(row)),
    {
        let index = self.table.rows.len();
        self.push_row(row);
        self.bind_name(name, index);
        self.add_tag(tag, index);
        proof {
            law_tagged_row_appended(*old(self), *self, row, tag);
        }
    }

    /// Binds `name` to the row at `index`.
    fn bind_name(&mut self, name: RowName, index: usize)
        requires
            old(self).wf(),
            index < old(self).rows().len(),
        ensures
            final(self).wf(),
            final(self).rows() == old(self).rows(),
            final(self).name_index(name) == Some(index),
            forall|other: RowName|
                other != name ==> #[trigger] final(self).name_index(other) == old(self).name_index(
                    other,
                ),
            final(self).same_tags(old(self)),
    {
        self.names.insert(name.0, index);
    }

    /// Puts the row at `index` under `tag`, behind the rows that are there.
    fn add_tag(&mut self, tag: Tag, index: usize)
        requires
            old(self).wf(),
            index < old(self).rows().len(),
        ensures
            final(self).wf(),
            final(self).rows() == old(self).rows(),
            final(self).tag_indices(tag) == Some(
                tagged_so_far(old(self).tag_indices(tag)).push(index),
            ),
            forall|other: Tag|
                other != tag ==> #[trigger] final(self).tag_indices(other) == old(self).tag_indices(
                    other,
                ),
            final(self).same_names(old(self)),
    {
        let mut list = match self.tags.remove(&tag.0) {
            Some(list) => list,
            None => Vec::new(),
        };
        list.push(index);
        self.tags.insert(tag.0, list);
    }

    /// Inserts a cell made for `obj` at `location`; the cells of that row from
    /// there on move one column up, and the type index follows them. Fails,
    /// and changes nothing, where the row does not exist or the column lies
    /// beyond its end.
    pub fn insert_at<T: Anonymous>(&mut self, obj: T, location: TableIndex) -> (r: Result<(), ()>)
        requires
            old(self).wf(),
        ensures
            final(self).wf(),
            r.is_ok() <==> fits_into(old(self).rows(), location),
            r.is_ok() ==> row_grew_at(old(self).rows(), final(self).rows(), location, obj),
            r.is_err() ==> final(self).rows() == old(self).rows(),
            final(self).same_names(old(self)),
            final(self).same_tags(old(self)),
    {
        if location.row >= self.table.rows.len() {
            return Err(());
        }
        if location.column > self.table.rows[location.row].len() {
            return Err(());
        }
        let row = &mut self.table.rows[location.row];
        let inserted = row.insert(obj, location.column);
        self.reindex();
        inserted
    }

    /// The row at position `row`, if there is one.
    pub fn get_row(&self, row: usize) -> (r: Option<&AnonymousRow>)
        ensures
            r == (if row < self.rows().len() {
                Some(&self.rows()[row as int])
            } else {
                None
            }),
    {
        self.table.get_row(row)
    }

    /// The row at position `row`, if there is one, for changing it. The type
    /// index counts as out of date from here on, and is built anew when it is
    /// next needed.
    pub fn get_row_mut(&mut self, row: usize) -> (r: Option<&mut AnonymousRow>)
        requires
            old(self).wf(),
        ensures
            final(self).wf(),
            match r {
                Some(found) => {
                    &&& row < old(self).rows().len()
                    &&& *found == old(self).rows()[row as int]
                    &&& final(self).rows() == old(self).rows().update(row as int, *final(found))
                },
                None => row >= old(self).rows().len() && final(self).rows() == old(self).rows(),
            },
            final(self).same_names(old(self)),
            final(self).same_tags(old(self)),
    {
        self.synced = false;
        self.table.get_row_mut(row)
    }

    /// The row that `name` is bound to, or `None` where the name is not bound.
    pub fn get_named_row(&self, name: RowName) -> (r: Option<&AnonymousRow>)
        requires
            self.wf(),
        ensures
            r.is_some() == self.name_index(name).is_some(),
            r.is_some() ==> self.named_row(name) == Some(*r.unwrap()),
    {
        match self.names.get(&name.0) {
            Some(index) => Some(&self.table.rows[*index]),
            None => None,
        }
    }

    /// The row that `name` is bound to, for changing it, or `None` where the
    /// name is not bound. The type index counts as out of date from here on.
    pub fn get_named_row_mut(&mut self, name: RowName) -> (r: Option<&mut AnonymousRow>)
        requires
            old(self).wf(),
        ensures
            final(self).wf(),
            match r {
                Some(found) => {
                    let index = old(self).name_index(name).unwrap() as int;
                    &&& old(self).named_row(name) == Some(*found)
                    &&& final(self).rows() == old(self).rows().update(index, *final(found))
                },
                None => {
                    &&& old(self).name_index(name).is_none()
                    &&& final(self).rows() == old(self).rows()
                },
            },
            final(self).same_names(old(self)),
            final(self).same_tags(old(self)),
    {
        let index = match self.names.get(&name.0) {
            Some(index) => *index,
            None => {
                return None;
            },
        };
        self.synced = false;
        Some(&mut self.table.rows[index])
    }

    /// The values of type `T` at `locations`, in that order. A coordinate
    /// without a cell, or with a cell that yields no `T`, adds nothing.
    fn read_all<'a, T: Anonymous>(&'a self, locations: &Vec<TableIndex>) -> (vals: Vec<&'a T>)
        ensures
            plains(dereferenced(vals@)) == values_at::<T>(self.rows(), locations@),
    {
        let mut vals: Vec<&'a T> = Vec::with_capacity(locations.len());
        let mut k: usize = 0;
        while k < locations.len()
            invariant
                k <= locations.len(),
                plains(dereferenced(vals@)) == values_at::<T>(
                    self.rows(),
                    locations@.take(k as int),
                ),
            decreases locations.len() - k,
        {
            let location = locations[k];
            proof {
                lemma_values_at_step::<T>(self.rows(), locations@, k as int);
            }
            if let Some(row) = self.table.get_row(location.row) {
                if let Some(value) = row.get_at::<T>(location.column) {
                    vals.push(value);
                }
            }
            k += 1;
        }
        assert(locations@.take(k as int) =~= locations@);
        vals
    }

    /// The values of type `T`, in row-major order: one for each cell of the
    /// identity of `T` that yields a `T`. The cells are taken as they lie now,
    /// also where rows were changed after they were registered.
    pub fn get_all_of_type<T: Anonymous>(&self) -> (vals: Vec<&T>)
        requires
            self.wf(),
        ensures
            plains(dereferenced(vals@)) == self.values_of::<T>(),
    {
        let id = T::id();
        if self.synced {
            assert(listed(self.cell_locations@, id) == self.locations(id));
            match self.cell_locations.get(&id) {
                Some(locations) => self.read_all::<T>(locations),
                None => Vec::new(),
            }
        } else {
            let locations = locate(&self.table.rows, id);
            self.read_all::<T>(&locations)
        }
    }

    /// The rows under `tag`, in the order in which they were tagged, or `None`
    /// where the tag was never used.
    pub fn get_tagged_rows(&self, tag: Tag) -> (r: Option<Vec<&AnonymousRow>>)
        requires
            self.wf(),
        ensures
            r.is_some() == self.tag_indices(tag).is_some(),
            r.is_some() ==> self.tagged_rows(tag) == Some(dereferenced(r.unwrap()@)),
    {
        let indices = match self.tags.get(&tag.0) {
            Some(indices) => indices,
            None => {
                return None;
            },
        };
        let mut found: Vec<&AnonymousRow> = Vec::with_capacity(indices.len());
        let mut k: usize = 0;
        while k < indices.len()
            invariant
                self.wf(),
                self.tags@.contains_key(tag.0),
                indices@ == self.tags@[tag.0]@,
                k <= indices.len(),
                found@.len() == k,
                forall|j: int|
                    0 <= j < k ==> *#[trigger] found@[j] == self.table.rows@[indices@[j] as int],
            decreases indices.len() - k,
        {
            let index = indices[k];
            found.push(&self.table.rows[index]);
            k += 1;
        }
        Some(found)
    }
}

/// The rows at `indices`, in that order.
pub open spec fn rows_at(rows: Seq<AnonymousRow>, indices: Seq<usize>) -> Seq<AnonymousRow> {
    Seq::new(indices.len(), |k: int| rows[indices[k] as int])
}

/// The positions under a tag so far: none where the tag was never used.
pub open spec fn tagged_so_far(indices: Option<Seq<usize>>) -> Seq<usize> {
    match indices {
        Some(indices) => indices,
        None => Seq::empty(),
    }
}

/// `location` names a place in `rows` where a cell can be inserted: a column
/// of a row that exists, or the end of such a row.
pub open spec fn fits_into(rows: Seq<AnonymousRow>, location: TableIndex) -> bool {
    location.row < rows.len() && location.column <= rows[location.row as int]@.len()
}

/// `after` is `before` with one more cell in the row at `location.row`: a
/// cell made for `item`, at `location.column`. Every other row is as it was.
pub open spec fn row_grew_at<T: Anonymous>(
    before: Seq<AnonymousRow>,
    after: Seq<AnonymousRow>,
    location: TableIndex,
    item: T,
) -> bool {
    let row = location.row as int;
    &&& after.len() == before.len()
    &&& 0 <= row < before.len()
    &&& grew_at(before[row]@, after[row]@, location.column as int, item)
    &&& forall|i: int| 0 <= i < before.len() && i != row ==> #[trigger] after[i] == before[i]
}

/// `Vec::capacity`: the number of elements that the vector can hold without
/// allocating again, which is never less than its length.
#[verifier::external_body]
fn capacity_of(rows: &Vec<AnonymousRow>) -> (n: usize)
    ensures
        n >= rows@.len(),
{
    rows.capacity()
}

} // verus!
