//! The table: rows numbered from zero, thirteen to a page, appended one at a
//! time and read back by number.

use crate::codec::{copy_into, overwrite};
use crate::pager::{GetPageError, Pager, PagerView, SaveToDiskError, MAX_PAGES, PAGE_SIZE};
use crate::row::{
    decode_row, encode_row, lemma_decode_encode, lemma_encode_row_layout, no_trailing_nul,
    row_decodes, row_fits, DeserializeError, Row, RowView, ROW_SIZE,
};
use crate::slice_pointer::{clipped_len, SlicePointer};
use vstd::prelude::*;

verus! {

/// Number of rows that a page holds.
pub const ROWS_PER_PAGE: usize = 13;

/// Number of rows that a table holds at most.
pub const MAX_ROWS: usize = 1300;

/// Why a row could not be read.
#[derive(Debug)]
pub enum GetRowError {
    PoisonedPager,
    GetPage(GetPageError),
    Deserialize(DeserializeError),
}

/// Why a row could not be written.
#[derive(Debug)]
pub enum WriteRowError {
    /// The table holds as many rows as it can.
    TableFull,
    PoisonedPager,
    GetPage(GetPageError),
}

/// The page that holds row `row_number`.
pub open spec fn row_page(row_number: int) -> int {
    row_number / (ROWS_PER_PAGE as int)
}

/// Where row `row_number` starts in its page.
pub open spec fn row_offset(row_number: int) -> int {
    (row_number % (ROWS_PER_PAGE as int)) * ROW_SIZE
}

/// What a table holds: its pages and the number of its rows.
#[verifier::ext_equal]
pub struct TableView {
    pub pager: PagerView,
    pub nb_rows: nat,
}

impl TableView {
    /// The pager is well formed and the rows are no more than 1300.
    pub open spec fn wf(self) -> bool {
        &&& self.pager.wf()
        &&& self.nb_rows <= MAX_ROWS
    }

    /// The 295 bytes at the place of row `row_number`.
    pub open spec fn row_bytes(self, row_number: int) -> Seq<u8> {
        self.pager.page(row_page(row_number)).subrange(
            row_offset(row_number),
            row_offset(row_number) + ROW_SIZE,
        )
    }

    /// The table after a read of row `row_number`: the row's page is
    /// resident, and no byte of any page has changed.
    pub open spec fn touch(self, row_number: int) -> TableView {
        TableView {
            pager: self.pager.with_page(
                row_page(row_number),
                self.pager.page(row_page(row_number)),
            ),
            nb_rows: self.nb_rows,
        }
    }

    /// The table after `row` was appended: the row's bytes stand at the
    /// place of the next row number, and there is one row more.
    pub open spec fn append(self, row: RowView) -> TableView {
        let row_number = self.nb_rows as int;
        TableView {
            pager: self.pager.with_page(
                row_page(row_number),
                overwrite(
                    self.pager.page(row_page(row_number)),
                    row_offset(row_number),
                    encode_row(row),
                ),
            ),
            nb_rows: self.nb_rows + 1,
        }
    }

    /// The table after its first `n` rows were read one after the other.
    pub open spec fn scanned(self, n: nat) -> TableView
        decreases n,
    {
        if n == 0 {
            self
        } else {
            self.scanned((n - 1) as nat).touch(n - 1)
        }
    }

    /// Whether each of the first `n` rows decodes.
    pub open spec fn all_readable(self, n: nat) -> bool {
        forall|i: int| 0 <= i < n ==> row_decodes(#[trigger] self.row_bytes(i))
    }

    /// Those of the first `n` rows that decode, in the order of their
    /// numbers.
    pub open spec fn readable_rows(self, n: nat) -> Seq<RowView>
        decreases n,
    {
        if n == 0 {
            Seq::empty()
        } else {
            let before = self.readable_rows((n - 1) as nat);
            if row_decodes(self.row_bytes(n - 1)) {
                before.push(decode_row(self.row_bytes(n - 1)))
            } else {
                before
            }
        }
    }

    /// The table after the rows of `rows` were appended in their order.
    pub open spec fn append_all(self, rows: Seq<RowView>) -> TableView
        decreases rows.len(),
    {
        if rows.len() == 0 {
            self
        } else {
            self.append_all(rows.drop_last()).append(rows.last())
        }
    }
}

/// A table of rows over a pager.
#[derive(Debug)]
pub struct Table {
    pager: Pager,
    nb_rows: usize,
}

impl View for Table {
    type V = TableView;

    closed spec fn view(&self) -> TableView {
        TableView { pager: self.pager@, nb_rows: self.nb_rows as nat }
    }
}

impl Table {
    pub const ROWS_PER_PAGE: usize = ROWS_PER_PAGE;

    pub const MAX_ROWS: usize = MAX_ROWS;

    /// An empty table over `pager`.
    pub fn new(pager: Pager) -> (r: Self)
        ensures
            r@.wf(),
            r@ == (TableView { pager: pager@, nb_rows: 0 }),
    {
        proof {
            use_type_invariant(&pager);
        }
        Self { pager, nb_rows: 0 }
    }

    pub fn get_nb_rows(&self) -> (r: usize)
        ensures
            r == self@.nb_rows,
    {
        self.nb_rows
    }

    pub fn get_pager(&self) -> (r: &Pager)
        ensures
            r@ == self@.pager,
    {
        &self.pager
    }

    /// The bytes to write for a save of the table: those of the pager's
    /// save, with the table's number of rows as the row count.
    pub fn save_to_disk(&mut self, file_path: Option<&str>) -> (r: Result<
        Vec<u8>,
        SaveToDiskError,
    >)
        requires
            old(self)@.wf(),
        ensures
            final(self)@.wf(),
            final(self)@.nb_rows == old(self)@.nb_rows,
            final(self)@.pager.pages == old(self)@.pager.pages,
            file_path is None && old(self)@.pager.save_file is None ==> (r matches Err(
                SaveToDiskError::NoFileToWriteProvided,
            ) && final(self)@ == old(self)@),
            file_path is Some || old(self)@.pager.save_file is Some ==> (r matches Ok(image)
                && image@ == old(self)@.pager.disk_image(old(self)@.nb_rows as usize)
                && final(self)@.pager.save_file == (if file_path is Some {
                old(self)@.pager.save_file
            } else {
                Some(image@)
            })),
    {
        self.pager.save_to_disk(file_path, self.nb_rows)
    }

    /// Sets the number of rows, as when a table is opened over a save file
    /// that holds them.
    pub fn set_nb_rows(&mut self, nb_rows: usize)
        requires
            nb_rows <= MAX_ROWS,
        ensures
            final(self)@ == (TableView { pager: old(self)@.pager, nb_rows: nb_rows as nat }),
            final(self)@.wf(),
    {
        proof {
            use_type_invariant(&self.pager);
        }
        self.nb_rows = nb_rows;
    }

    /// Row `row_number`, or `None` where the table has no such row. The row
    /// is read from the bytes at its place; where they do not decode, the
    /// error of the decoding is given. The read leaves every byte and the
    /// number of rows as they were.
    pub fn get_row(&mut self, row_number: usize) -> (r: Option<Result<Row, GetRowError>>)
        requires
            old(self)@.wf(),
        ensures
            final(self)@.wf(),
            row_number >= old(self)@.nb_rows ==> r is None && final(self)@ == old(self)@,
            row_number < old(self)@.nb_rows ==> final(self)@ == old(self)@.touch(row_number as int),
            row_number < old(self)@.nb_rows && row_decodes(old(self)@.row_bytes(row_number as int))
                ==> (r matches Some(Ok(row)) && row@ == decode_row(
                old(self)@.row_bytes(row_number as int),
            )),
            row_number < old(self)@.nb_rows && !row_decodes(
                old(self)@.row_bytes(row_number as int),
            ) ==> r matches Some(
                Err(GetRowError::Deserialize(DeserializeError::FromUtf8Error(_))),
            ),
    {
        if row_number >= self.nb_rows {
            return None;
        }
        proof {
            lemma_row_place(row_number as int);
        }
        let page_num: usize = row_number / ROWS_PER_PAGE;
        let offset: usize = (row_number % ROWS_PER_PAGE) * ROW_SIZE;
        let page = match self.pager.get_page(page_num) {
            Ok(page) => page,
            Err(e) => {
                return Some(Err(GetRowError::GetPage(e)));
            },
        };
        let decoded = Row::try_from(&page.0[offset..offset + ROW_SIZE]);
        assert(self@ =~= old(self)@.touch(row_number as int));
        match decoded {
            Ok(row) => Some(Ok(row)),
            Err(e) => Some(Err(GetRowError::Deserialize(e))),
        }
    }

    /// The 295 bytes of row `row_number`, which the table has to have, to
    /// be read in place. The read leaves every byte and the number of rows
    /// as they were.
    pub fn get(&mut self, row_number: usize) -> (r: SlicePointer<'_>)
        requires
            old(self)@.wf(),
            row_number < old(self)@.nb_rows,
        ensures
            final(self)@.wf(),
            final(self)@ == old(self)@.touch(row_number as int),
            r@ == old(self)@.row_bytes(row_number as int),
            r.is_part(
                old(self)@.pager.page(row_page(row_number as int)),
                row_offset(row_number as int),
                ROW_SIZE as int,
            ),
    {
        proof {
            lemma_row_place(row_number as int);
        }
        let ghost page_bytes = self@.pager.page(row_page(row_number as int));
        let page_num: usize = row_number / ROWS_PER_PAGE;
        let row_offset: usize = (row_number % ROWS_PER_PAGE) * ROW_SIZE;
        let mut page = self.pager.get(page_num);
        proof {
            page.lemma_is_part(page_bytes, 0, PAGE_SIZE as int);
        }
        page.advance(row_offset);
        proof {
            page.lemma_is_part(
                page_bytes,
                row_offset as int,
                clipped_len(PAGE_SIZE as int, row_offset as int, PAGE_SIZE as int),
            );
        }
        page.set_len(ROW_SIZE);
        proof {
            page.lemma_is_part(page_bytes, row_offset as int, ROW_SIZE as int);
        }
        page
    }

    /// Appends `row`. A table of 1300 rows is full and stays as it was;
    /// any other table takes the row at the next row number.
    pub fn write_row(&mut self, row: Row) -> (r: Result<(), WriteRowError>)
        requires
            old(self)@.wf(),
        ensures
            final(self)@.wf(),
            old(self)@.nb_rows == MAX_ROWS ==> (r matches Err(WriteRowError::TableFull)
                && final(self)@ == old(self)@),
            old(self)@.nb_rows < MAX_ROWS ==> (r is Ok && final(self)@ == old(self)@.append(
                row@,
            )),
    {
        if self.nb_rows >= MAX_ROWS {
            return Err(WriteRowError::TableFull);
        }
        proof {
            lemma_row_place(self.nb_rows as int);
            lemma_encode_row_layout(row@);
        }
        let ghost appended = row@;
        let page_num: usize = self.nb_rows / ROWS_PER_PAGE;
        let offset: usize = (self.nb_rows % ROWS_PER_PAGE) * ROW_SIZE;
        let page = match self.pager.get_page(page_num) {
            Ok(page) => page,
            Err(e) => {
                return Err(WriteRowError::GetPage(e));
            },
        };
        let serialized_row = <[u8; ROW_SIZE]>::from(row);
        copy_into(&mut *page.0, offset, serialized_row.as_slice());
        self.nb_rows += 1;
        assert(self@ =~= old(self)@.append(appended));
        Ok(())
    }
}

/// Every row number below 1300 has its page among the 100 slots, and its
/// 295 bytes lie within the page.
pub proof fn lemma_row_place(row_number: int)
    requires
        0 <= row_number < MAX_ROWS,
    ensures
        0 <= row_page(row_number) < MAX_PAGES,
        0 <= row_offset(row_number),
        row_offset(row_number) + ROW_SIZE <= PAGE_SIZE,
        row_number == row_page(row_number) * ROWS_PER_PAGE + row_offset(row_number) / (
        ROW_SIZE as int),
{
}

/// Reading rows changes no byte of any page and not the number of rows: it
/// only makes pages resident.
pub proof fn lemma_scan_keeps_bytes(table: TableView, n: nat)
    requires
        table.wf(),
        n <= MAX_ROWS,
    ensures
        table.scanned(n).wf(),
        table.scanned(n).nb_rows == table.nb_rows,
        table.scanned(n).pager.save_file == table.pager.save_file,
        forall|p: int|
            0 <= p < MAX_PAGES ==> #[trigger] table.scanned(n).pager.page(p) == table.pager.page(p),
        forall|i: int|
            0 <= i < MAX_ROWS ==> #[trigger] table.scanned(n).row_bytes(i) == table.row_bytes(i),
    decreases n,
{
    if n > 0 {
        let before = table.scanned((n - 1) as nat);
        lemma_scan_keeps_bytes(table, (n - 1) as nat);
        lemma_row_place(n - 1);
        assert forall|p: int| 0 <= p < MAX_PAGES implies #[trigger] table.scanned(n).pager.page(p)
            == table.pager.page(p) by {
            assert(before.pager.page(p) == table.pager.page(p));
        }
        assert forall|i: int| 0 <= i < MAX_ROWS implies #[trigger] table.scanned(n).row_bytes(i)
            == table.row_bytes(i) by {
            lemma_row_place(i);
            assert(table.scanned(n).pager.page(row_page(i)) == table.pager.page(row_page(i)));
        }
    }
}

/// Two different row numbers never share a byte: they lie on different
/// pages, or their byte ranges within the page do not overlap.
pub proof fn lemma_rows_apart(i: int, j: int)
    requires
        0 <= i,
        0 <= j,
        i != j,
    ensures
        row_page(i) != row_page(j) || row_offset(i) + ROW_SIZE <= row_offset(j) || row_offset(j)
            + ROW_SIZE <= row_offset(i),
{
}

/// After `n` rows were appended to a table that had room for them, the
/// table has `n` rows more, and it is well formed.
pub proof fn lemma_append_all_counts(table: TableView, rows: Seq<RowView>)
    requires
        table.wf(),
        table.nb_rows + rows.len() <= MAX_ROWS,
    ensures
        table.append_all(rows).nb_rows == table.nb_rows + rows.len(),
        table.append_all(rows).wf(),
    decreases rows.len(),
{
    if rows.len() > 0 {
        lemma_append_all_counts(table, rows.drop_last());
        lemma_append_keeps_wf(table.append_all(rows.drop_last()), rows.last());
    }
}

/// Appending to a well-formed table with room leaves it well formed.
pub proof fn lemma_append_keeps_wf(table: TableView, row: RowView)
    requires
        table.wf(),
        table.nb_rows < MAX_ROWS,
    ensures
        table.append(row).wf(),
{
    lemma_row_place(table.nb_rows as int);
}

/// A row that was appended is the row that its number reads back. (The
/// row's texts have to fit their fields and not end in NUL, as for every row
/// that is to come back unchanged.)
pub proof fn lemma_append_then_read(table: TableView, row: RowView)
    requires
        table.wf(),
        table.nb_rows < MAX_ROWS,
        row_fits(row),
        no_trailing_nul(row.username),
        no_trailing_nul(row.email),
    ensures
        table.append(row).row_bytes(table.nb_rows as int) == encode_row(row),
        row_decodes(table.append(row).row_bytes(table.nb_rows as int)),
        decode_row(table.append(row).row_bytes(table.nb_rows as int)) == row,
{
    let n = table.nb_rows as int;
    lemma_row_place(n);
    lemma_encode_row_layout(row);
    lemma_decode_encode(row);
    assert(table.pager.page(row_page(n)).len() == PAGE_SIZE);
    assert(table.append(row).row_bytes(n) =~= encode_row(row));
}

/// Appending touches no byte of an earlier row: the rows that a table had
/// read back as they did.
pub proof fn lemma_append_keeps_rows(table: TableView, row: RowView, earlier: int)
    requires
        table.wf(),
        table.nb_rows < MAX_ROWS,
        0 <= earlier < table.nb_rows,
    ensures
        table.append(row).row_bytes(earlier) == table.row_bytes(earlier),
{
    let n = table.nb_rows as int;
    lemma_row_place(n);
    lemma_row_place(earlier);
    lemma_rows_apart(n, earlier);
    assert(table.pager.page(row_page(n)).len() == PAGE_SIZE);
    assert(table.append(row).row_bytes(earlier) =~= table.row_bytes(earlier));
}

} // verus!
