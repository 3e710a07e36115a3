//! Reading a save file: its row count, its pages, and the table over it.

use crate::codec::{
    be_bytes, be_value, copy_into, lemma_be_value_of_be_bytes, u64_from_be_bytes, U64_SIZE,
};
use crate::pager::{
    lemma_resident_bytes_in_place, resident_byte, resident_bytes, resident_up_to, Page, Pager,
    PagerView,
    HEADER_SIZE, MAX_PAGES, PAGE_SIZE,
};
use crate::table::{lemma_row_place, row_page, Table, TableView, MAX_ROWS};
use vstd::prelude::*;

verus! {

/// Why the data of a save file could not be read.
#[derive(Debug)]
pub enum ReadDataFromFileError {
    IoError(std::io::Error),
    /// The file is shorter than the row count that it starts with.
    NotEnoughData,
    /// The file ends within a page: the row count and the whole pages.
    FileIsCorrupted(usize, Vec<Page>),
}

/// Why no table could be made over a save file.
#[derive(Debug)]
pub enum CreateTableError {
    PoisonedFilePath,
    IoError(std::io::Error),
    /// The file is shorter than the row count that it starts with.
    NotEnoughData,
    /// The file counts more rows than a table holds.
    FileIsCorrupted,
    PoisonedTable,
}

/// The row count that a save file starts with.
pub open spec fn header_rows(file: Seq<u8>) -> nat {
    be_value(file.subrange(0, HEADER_SIZE as int))
}

/// The number of whole pages after the row count of a save file.
pub open spec fn whole_pages(file: Seq<u8>) -> int {
    (file.len() - HEADER_SIZE) / (PAGE_SIZE as int)
}

/// Whether a save file ends at the end of a page.
pub open spec fn ends_with_a_page(file: Seq<u8>) -> bool {
    (file.len() - HEADER_SIZE) % (PAGE_SIZE as int) == 0
}

/// What each page of `pages` holds.
pub open spec fn pages_view(pages: Seq<Page>) -> Seq<Seq<u8>> {
    Seq::new(pages.len(), |i: int| pages[i]@)
}

/// The whole pages of a save file, one after the other.
pub open spec fn file_pages(file: Seq<u8>) -> Seq<Seq<u8>> {
    Seq::new(
        whole_pages(file) as nat,
        |i: int| file.subrange(HEADER_SIZE + PAGE_SIZE * i, HEADER_SIZE + PAGE_SIZE * (i + 1)),
    )
}

/// The first eight bytes of a file as a number, most significant first.
fn read_header(file: &[u8]) -> (r: u64)
    requires
        file@.len() >= HEADER_SIZE,
    ensures
        r == header_rows(file@),
{
    let mut header = [0u8; U64_SIZE];
    let mut i: usize = 0;
    while i < HEADER_SIZE
        invariant
            i <= HEADER_SIZE,
            file@.len() >= HEADER_SIZE,
            forall|j: int| 0 <= j < i ==> header@[j] == file@[j],
        decreases HEADER_SIZE - i,
    {
        header[i] = file[i];
        i += 1;
    }
    assert(header@ =~= file@.subrange(0, HEADER_SIZE as int));
    u64_from_be_bytes(&header)
}

/// The row count and the pages of a save file. A file shorter than its row
/// count is refused, as is a row count that no `usize` holds; a file that
/// ends within a page is refused with what it holds up to there.
pub fn read_data_from_file(file: &[u8]) -> (r: Result<
    (usize, Vec<Page>),
    ReadDataFromFileError,
>)
    ensures
        file@.len() < HEADER_SIZE || header_rows(file@) > usize::MAX
            <==> r matches Err(ReadDataFromFileError::NotEnoughData),
        file@.len() >= HEADER_SIZE && header_rows(file@) <= usize::MAX && ends_with_a_page(file@)
            ==> (r matches Ok((nb_rows, pages)) && nb_rows == header_rows(file@) && pages_view(
            pages@,
        ) == file_pages(file@)),
        file@.len() >= HEADER_SIZE && header_rows(file@) <= usize::MAX && !ends_with_a_page(
            file@,
        ) ==> (r matches Err(ReadDataFromFileError::FileIsCorrupted(nb_rows, pages)) && nb_rows
            == header_rows(file@) && pages_view(pages@) == file_pages(file@)),
{
    if file.len() < HEADER_SIZE {
        return Err(ReadDataFromFileError::NotEnoughData);
    }
    let header = read_header(file);
    if header > usize::MAX as u64 {
        return Err(ReadDataFromFileError::NotEnoughData);
    }
    let nb_rows = header as usize;
    let nb_pages: usize = (file.len() - HEADER_SIZE) / PAGE_SIZE;
    let mut pages: Vec<Page> = Vec::new();
    let mut i: usize = 0;
    while i < nb_pages
        invariant
            i <= nb_pages,
            nb_pages == whole_pages(file@),
            file@.len() >= HEADER_SIZE,
            4096 * nb_pages <= file@.len() - 8,
            file@.len() <= usize::MAX,
            pages@.len() == i,
            forall|j: int|
                0 <= j < i ==> (#[trigger] pages@[j])@ == file@.subrange(
                    HEADER_SIZE + PAGE_SIZE * j,
                    HEADER_SIZE + PAGE_SIZE * (j + 1),
                ),
        decreases nb_pages - i,
    {
        assert(4096 * (i + 1) <= 4096 * nb_pages);
        let start: usize = HEADER_SIZE + PAGE_SIZE * i;
        let mut page = Page::default();
        copy_into(&mut *page.0, 0, &file[start..start + PAGE_SIZE]);
        assert(page@ =~= file@.subrange(
            HEADER_SIZE + PAGE_SIZE * i,
            HEADER_SIZE + PAGE_SIZE * (i + 1),
        ));
        pages.push(page);
        i += 1;
    }
    assert(pages_view(pages@) =~= file_pages(file@));
    if (file.len() - HEADER_SIZE) % PAGE_SIZE == 0 {
        Ok((nb_rows, pages))
    } else {
        Err(ReadDataFromFileError::FileIsCorrupted(nb_rows, pages))
    }
}

/// The table over a save file: its rows are as many as the file counts, and
/// its pages are read from the file as they are asked for. A file shorter
/// than its row count is refused, and so is one that counts more rows than a
/// table holds.
pub fn open_table(save_file: Vec<u8>) -> (r: Result<Table, CreateTableError>)
    ensures
        save_file@.len() < HEADER_SIZE <==> r matches Err(CreateTableError::NotEnoughData),
        save_file@.len() >= HEADER_SIZE && header_rows(save_file@) > MAX_ROWS <==> r matches Err(
            CreateTableError::FileIsCorrupted,
        ),
        save_file@.len() >= HEADER_SIZE && header_rows(save_file@) <= MAX_ROWS ==> (r matches Ok(
            table,
        ) && table@.wf() && table@ == (TableView {
            pager: PagerView::fresh(Some(save_file@)),
            nb_rows: header_rows(save_file@),
        })),
{
    if save_file.len() < HEADER_SIZE {
        return Err(CreateTableError::NotEnoughData);
    }
    let header = read_header(save_file.as_slice());
    if header > MAX_ROWS as u64 {
        return Err(CreateTableError::FileIsCorrupted);
    }
    let mut table = Table::new(Pager::new(Some(save_file)));
    table.set_nb_rows(header as usize);
    Ok(table)
}

/// A table that is saved and opened again over the bytes of the save has
/// the rows that it had: as many, and byte for byte the same. This holds of
/// a row whose page was resident at the save, where the resident pages were
/// those of the first slots; and of every row where, besides, the table had
/// no save file of its own. (A save leaves out the slots that are not
/// resident, so a page behind such a slot is not found again at its place.)
pub proof fn lemma_save_then_open(table: TableView, k: int, row_number: int)
    requires
        table.wf(),
        0 <= k <= MAX_PAGES,
        resident_up_to(table.pager.pages, k),
        0 <= row_number < MAX_ROWS,
        row_page(row_number) < k || table.pager.save_file is None,
    ensures
        ({
            let image = table.pager.disk_image(table.nb_rows as usize);
            let reopened = TableView {
                pager: PagerView::fresh(Some(image)),
                nb_rows: header_rows(image),
            };
            &&& image.len() == HEADER_SIZE + PAGE_SIZE * k
            &&& reopened.wf()
            &&& reopened.nb_rows == table.nb_rows
            &&& reopened.row_bytes(row_number) == table.row_bytes(row_number)
        }),
{
    let nb_rows = table.nb_rows as usize;
    let image = table.pager.disk_image(nb_rows);
    let header = be_bytes(nb_rows as u64);
    let pages = table.pager.pages;
    let reopened = TableView { pager: PagerView::fresh(Some(image)), nb_rows: header_rows(image) };
    lemma_be_value_of_be_bytes(nb_rows as u64);
    lemma_resident_bytes_in_place(pages, k);
    lemma_row_place(row_number);
    assert(image.subrange(0, HEADER_SIZE as int) =~= header);
    let p = row_page(row_number);
    assert(reopened.pager.pages[p] is None);
    if p < k {
        let page = pages[p]->0;
        assert(pages[p] is Some);
        assert forall|at: int| 0 <= at < PAGE_SIZE implies reopened.pager.page(p)[at]
            == page[at] by {
            assert(image[HEADER_SIZE + PAGE_SIZE * p + at] == resident_bytes(pages)[PAGE_SIZE * p
                + at]);
            assert(resident_byte(pages, p, at) == page[at]);
        }
        assert(reopened.pager.page(p) =~= table.pager.page(p));
    } else {
        assert(pages[p] is None);
        assert(reopened.pager.page(p) =~= table.pager.page(p));
    }
}

} // verus!
