//! A cursor: a place among the rows of a table, which moves from row to row.

use crate::row::ROW_SIZE;
use crate::slice_pointer::SlicePointer;
use crate::table::{row_offset, row_page, Table, TableView};
use vstd::prelude::*;

verus! {

/// Why a cursor could not be used.
#[derive(Debug)]
pub enum CursorError {
    PoisonedTable,
}

/// What a cursor holds: its table and the number of the row that it is at.
pub struct CursorView {
    pub table: TableView,
    pub row_num: nat,
}

/// A place among the rows of a table.
#[derive(Debug)]
pub struct Cursor {
    table: Table,
    row_num: usize,
}

impl View for Cursor {
    type V = CursorView;

    closed spec fn view(&self) -> CursorView {
        CursorView { table: self.table@, row_num: self.row_num as nat }
    }
}

impl Cursor {
    /// The cursor at the first row of `table`.
    pub fn at_start(table: Table) -> (r: Self)
        ensures
            r@ == (CursorView { table: table@, row_num: 0 }),
    {
        Self { table, row_num: 0 }
    }

    /// The cursor behind the last row of `table`.
    pub fn at_end(table: Table) -> (r: Self)
        ensures
            r@ == (CursorView { table: table@, row_num: table@.nb_rows }),
    {
        let row_num = table.get_nb_rows();
        Self { table, row_num }
    }

    /// Whether the cursor is behind the last row.
    pub fn is_end_of_table(&self) -> (r: bool)
        ensures
            r == (self@.table.nb_rows <= self@.row_num),
    {
        self.table.get_nb_rows() <= self.row_num
    }

    /// The 295 bytes of the row that the cursor is at, which must not be
    /// behind the last row, to be read in place.
    pub fn get(&mut self) -> (r: SlicePointer<'_>)
        requires
            old(self)@.table.wf(),
            old(self)@.row_num < old(self)@.table.nb_rows,
        ensures
            final(self)@.table.wf(),
            final(self)@.row_num == old(self)@.row_num,
            final(self)@.table == old(self)@.table.touch(old(self)@.row_num as int),
            r@ == old(self)@.table.row_bytes(old(self)@.row_num as int),
            r.is_part(
                old(self)@.table.pager.page(row_page(old(self)@.row_num as int)),
                row_offset(old(self)@.row_num as int),
                ROW_SIZE as int,
            ),
    {
        self.table.get(self.row_num)
    }

    /// Moves the cursor to the next row.
    pub fn advance(&mut self)
        requires
            old(self)@.row_num < usize::MAX,
        ensures
            final(self)@ == (CursorView {
                table: old(self)@.table,
                row_num: old(self)@.row_num + 1,
            }),
    {
        self.row_num += 1;
    }

    /// The table of the cursor.
    pub fn into_table(self) -> (r: Table)
        ensures
            r@ == self@.table,
    {
        self.table
    }
}

} // verus!
