//! A row: an ordered, growable sequence of cells.

use vstd::prelude::*;
use crate::anonymous::{Anonymous, AnonymousCell};

verus! {

/// An ordered sequence of cells. The position of a cell is its column.
///
/// A row grows by appending and by inserting; it never loses a cell.
#[derive(Debug)]
pub struct AnonymousRow {
    cells: Vec<AnonymousCell>,
}

impl View for AnonymousRow {
    type V = Seq<AnonymousCell>;

    closed spec fn view(&self) -> Seq<AnonymousCell> {
        self.cells@
    }
}

/// The identities of `cells`, column by column.
pub open spec fn identities(cells: Seq<AnonymousCell>) -> Seq<u16> {
    Seq::new(cells.len(), |i: int| cells[i].identity())
}

/// `after` has the cells of `before`, each of the same identity and layout,
/// and all but the one at `column` exactly as they were.
pub open spec fn differs_only_at(
    before: Seq<AnonymousCell>,
    after: Seq<AnonymousCell>,
    column: int,
) -> bool {
    &&& after.len() == before.len()
    &&& forall|i: int| 0 <= i < before.len() ==> (#[trigger] after[i]).same_kind(&before[i])
    &&& forall|i: int| 0 <= i < before.len() && i != column ==> #[trigger] after[i] == before[i]
}

/// `after` is `before` with one more cell, made for `item`, at `column`.
pub open spec fn grew_at<T: Anonymous>(
    before: Seq<AnonymousCell>,
    after: Seq<AnonymousCell>,
    column: int,
    item: T,
) -> bool {
    &&& 0 <= column <= before.len()
    &&& after == before.insert(column, after[column])
    &&& after[column].holds(item)
}

impl AnonymousRow {
    /// The identities of the cells, column by column.
    pub open spec fn ids(&self) -> Seq<u16> {
        identities(self@)
    }

    /// What a checked read of column `index` as `T` yields, in plain form:
    /// that of the value, where the column exists, its cell accepts `T`, and
    /// its content is a `T`.
    pub open spec fn value_at<T: Anonymous>(&self, index: int) -> Option<Seq<int>> {
        if 0 <= index < self@.len() {
            self@[index].value::<T>()
        } else {
            None
        }
    }

    /// A row never has more cells than a `usize` can count.
    pub proof fn lemma_len_fits(&self)
        ensures
            self@.len() <= usize::MAX,
    {
        assert(self.cells.len() == self.cells@.len());
    }

    /// A row without cells.
    pub fn new() -> (row: Self)
        ensures
            row@ == Seq::<AnonymousCell>::empty(),
    {
        AnonymousRow { cells: Vec::new() }
    }

    /// A row without cells, with room for `cap` of them.
    pub fn with_capacity(cap: usize) -> (row: Self)
        ensures
            row@ == Seq::<AnonymousCell>::empty(),
    {
        AnonymousRow { cells: Vec::with_capacity(cap) }
    }

    /// The number of cells.
    pub fn len(&self) -> (n: usize)
        ensures
            n == self@.len(),
    {
        self.cells.len()
    }

    /// Appends a cell made for `item` at the next column.
    pub fn push<T: Anonymous>(&mut self, item: T)
        ensures
            grew_at(old(self)@, final(self)@, old(self)@.len() as int, item),
    {
        self.cells.push(AnonymousCell::new(item));
        assert(self@ =~= old(self)@.insert(old(self)@.len() as int, self@.last()));
    }

    /// `push`, on a row that is passed along.
    pub fn chain_push<T: Anonymous>(self, item: T) -> (row: Self)
        ensures
            grew_at(self@, row@, self@.len() as int, item),
    {
        let mut row = self;
        row.push(item);
        row
    }

    /// Inserts a cell made for `item` at column `index`; the cells from there
    /// on move one column up. Fails, and changes nothing, where `index` lies
    /// beyond the end of the row.
    pub fn insert<T: Anonymous>(&mut self, item: T, index: usize) -> (r: Result<(), ()>)
        ensures
            r.is_ok() <==> index <= old(self)@.len(),
            r.is_ok() ==> grew_at(old(self)@, final(self)@, index as int, item),
            r.is_err() ==> final(self)@ == old(self)@,
    {
        if index > self.cells.len() {
            return Err(());
        }
        self.cells.insert(index, AnonymousCell::new(item));
        Ok(())
    }

    /// Puts `item` in place of the value at column `index` and returns the
    /// value that was there. Fails, and changes nothing, where the column does
    /// not exist, its cell does not accept `T`, or it holds a value of another
    /// type.
    pub fn exchange_at<T: Anonymous + Copy>(&mut self, item: T, index: usize) -> (r: Result<T, ()>)
        ensures
            match r {
                Ok(held) => {
                    &&& old(self).value_at::<T>(index as int) == Some(held.plain())
                    &&& final(self)@[index as int].holds(item)
                },
                Err(_) => {
                    &&& old(self).value_at::<T>(index as int).is_none()
                    &&& final(self)@ == old(self)@
                },
            },
            differs_only_at(old(self)@, final(self)@, index as int),
    {
        if index >= self.cells.len() {
            return Err(());
        }
        let cell = &mut self.cells[index];
        cell.exchange_value(item)
    }

    /// The value at column `index` as a `T`, or `None` where the column does
    /// not exist, its cell does not accept `T`, or it holds a value of another
    /// type.
    pub fn get_at<T: Anonymous>(&self, index: usize) -> (r: Option<&T>)
        ensures
            match r {
                Some(value) => self.value_at::<T>(index as int) == Some(value.plain()),
                None => self.value_at::<T>(index as int).is_none(),
            },
    {
        if index >= self.cells.len() {
            return None;
        }
        self.cells[index].get_ref::<T>()
    }

    /// The value at column `index` as a mutable `T`, or `None` under the
    /// conditions of `get_at`. What the caller leaves behind the reference is
    /// the value of that column from then on; every cell keeps its identity
    /// and layout, and every other cell its content.
    pub fn get_mut_at<T: Anonymous>(&mut self, index: usize) -> (r: Option<&mut T>)
        ensures
            match r {
                Some(value) => {
                    &&& old(self).value_at::<T>(index as int) == Some(value.plain())
                    &&& final(self)@[index as int].holds(*final(value))
                },
                None => {
                    &&& old(self).value_at::<T>(index as int).is_none()
                    &&& final(self)@ == old(self)@
                },
            },
            differs_only_at(old(self)@, final(self)@, index as int),
    {
        if index >= self.cells.len() {
            return None;
        }
        let cell = &mut self.cells[index];
        cell.get_mut::<T>()
    }

    /// `get_at` without the checks of identity and layout, for a caller who
    /// knows what the column holds. A value of another type is still refused.
    pub fn get_at_unchecked<T: Anonymous>(&self, index: usize) -> (r: Option<&T>)
        requires
            index < self@.len(),
        ensures
            match r {
                Some(value) => self@[index as int].stored::<T>() == Some(value.plain()),
                None => self@[index as int].stored::<T>().is_none(),
            },
    {
        self.cells[index].get_ref_unchecked::<T>()
    }

    /// `get_mut_at` without the checks of identity and layout, for a caller
    /// who knows what the column holds. A value of another type is still
    /// refused.
    pub fn get_at_mut_unchecked<T: Anonymous>(&mut self, index: usize) -> (r: Option<&mut T>)
        requires
            index < old(self)@.len(),
        ensures
            match r {
                Some(value) => {
                    &&& old(self)@[index as int].stored::<T>() == Some(value.plain())
                    &&& final(self)@[index as int].stored::<T>() == Some(final(value).plain())
                },
                None => {
                    &&& old(self)@[index as int].stored::<T>().is_none()
                    &&& final(self)@ == old(self)@
                },
            },
            differs_only_at(old(self)@, final(self)@, index as int),
    {
        let cell = &mut self.cells[index];
        cell.get_mut_unchecked::<T>()
    }

    /// The identities of the cells, column by column.
    pub fn get_ids(&self) -> (ids: Vec<u16>)
        ensures
            ids@ == self.ids(),
    {
        let mut ids: Vec<u16> = Vec::with_capacity(self.cells.len());
        let mut column: usize = 0;
        while column < self.cells.len()
            invariant
                column <= self.cells.len(),
                ids@ == identities(self@.take(column as int)),
            decreases self.cells.len() - column,
        {
            ids.push(self.cells[column].id());
            column += 1;
        }
        ids
    }
}

} // verus!
