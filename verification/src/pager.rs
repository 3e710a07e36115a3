//! The page cache: up to 100 pages of 4096 bytes, each brought into memory
//! the first time it is asked for, and the image that a save writes out.

use crate::codec::{be_bytes, copy_into, u64_to_be_bytes};
use crate::slice_pointer::SlicePointer;
use vstd::pervasive::unreached;
use vstd::prelude::*;
use vstd::slice::slice_to_vec;

verus! {

/// Number of bytes of a page.
pub const PAGE_SIZE: usize = 4096;

/// Number of page slots of a pager.
pub const MAX_PAGES: usize = 100;

/// Number of bytes of the row count that a save file starts with.
pub const HEADER_SIZE: usize = 8;

/// The error of an I/O operation, carried through unopened.
#[verifier::external_type_specification]
#[verifier::external_body]
pub struct ExIoError(std::io::Error);

/// A page: 4096 bytes.
#[derive(Debug)]
pub struct Page(pub Box<[u8; PAGE_SIZE]>);

impl View for Page {
    type V = Seq<u8>;

    open spec fn view(&self) -> Seq<u8> {
        self.0@
    }
}

impl Page {
    pub const SIZE: usize = PAGE_SIZE;

    /// The page at `page_num` of a save file: the bytes that the file holds
    /// from that page's place on, and zero bytes where the file has ended.
    pub fn read_from(file: &[u8], page_num: usize) -> (r: Self)
        requires
            page_num < MAX_PAGES,
        ensures
            r@ == file_page(file@, page_num as int),
    {
        let mut page = Page::default();
        let start: usize = HEADER_SIZE + PAGE_SIZE * page_num;
        if start < file.len() {
            let end: usize = if file.len() - start < PAGE_SIZE {
                file.len()
            } else {
                start + PAGE_SIZE
            };
            copy_into(&mut *page.0, 0, &file[start..end]);
        }
        assert(page@ =~= file_page(file@, page_num as int));
        page
    }
}

impl std::ops::Deref for Page {
    type Target = Box<[u8; PAGE_SIZE]>;

    fn deref(&self) -> (r: &Box<[u8; PAGE_SIZE]>)
        ensures
            r@ == self@,
    {
        &self.0
    }
}

impl Default for Page {
    /// A page of zero bytes.
    fn default() -> (r: Self)
        ensures
            r@ == zero_page(),
    {
        let r = Page(Box::new([0u8; PAGE_SIZE]));
        assert(r@ =~= zero_page());
        r
    }
}

/// Why a save file could not be opened.
#[derive(Debug)]
pub enum SetOpenSaveFileError {
    IoError(std::io::Error),
    PoisonedTable,
}

/// Why a page could not be had.
#[derive(Debug)]
pub enum GetPageError {
    /// The page number is not below the number of slots.
    MaxPageExceeded,
    IoError(std::io::Error),
}

/// Why the pages could not be saved.
#[derive(Debug)]
pub enum SaveToDiskError {
    /// No path was given and the pager has no save file.
    NoFileToWriteProvided,
    PoisonedTable,
    IoError(std::io::Error),
    NotAllBytesWritten,
}

/// A page of zero bytes.
pub open spec fn zero_page() -> Seq<u8> {
    Seq::new(PAGE_SIZE as nat, |i: int| 0u8)
}

/// Where page `page_num` starts in a save file.
pub open spec fn page_start(page_num: int) -> int {
    HEADER_SIZE + PAGE_SIZE * page_num
}

/// What reading page `page_num` from a save file gives: the file's bytes
/// from the page's start on, as far as the file goes, then zero bytes.
pub open spec fn file_page(file: Seq<u8>, page_num: int) -> Seq<u8> {
    Seq::new(
        PAGE_SIZE as nat,
        |i: int|
            if page_start(page_num) + i < file.len() {
                file[page_start(page_num) + i]
            } else {
                0u8
            },
    )
}

/// The resident pages of `pages`, one after the other in the order of their
/// slots.
pub open spec fn resident_bytes(pages: Seq<Option<Seq<u8>>>) -> Seq<u8>
    decreases pages.len(),
{
    if pages.len() == 0 {
        Seq::empty()
    } else {
        resident_bytes(pages.drop_last()) + match pages.last() {
            Some(page) => page,
            None => Seq::empty(),
        }
    }
}

/// A page that starts at or behind the end of its save file reads as zero
/// bytes.
pub proof fn lemma_page_beyond_file(file: Seq<u8>, page_num: int)
    requires
        0 <= page_num,
        file.len() <= page_start(page_num),
    ensures
        file_page(file, page_num) == zero_page(),
{
    assert(file_page(file, page_num) =~= zero_page());
}

/// Whether the resident pages of `pages` are those of the first `k` slots.
pub open spec fn resident_up_to(pages: Seq<Option<Seq<u8>>>, k: int) -> bool {
    forall|i: int| 0 <= i < pages.len() ==> (#[trigger] pages[i] is Some <==> i < k)
}

/// Byte `at` of the page that is resident in slot `i`.
pub open spec fn resident_byte(pages: Seq<Option<Seq<u8>>>, i: int, at: int) -> u8 {
    pages[i]->0[at]
}

/// Where the resident pages are those of the first slots, they stand in a
/// save one after the other, each at the place of its slot.
pub proof fn lemma_resident_bytes_in_place(pages: Seq<Option<Seq<u8>>>, k: int)
    requires
        0 <= k <= pages.len(),
        resident_up_to(pages, k),
        forall|i: int|
            0 <= i < pages.len() ==> (#[trigger] pages[i] matches Some(page) ==> page.len()
                == PAGE_SIZE),
    ensures
        resident_bytes(pages).len() == PAGE_SIZE * k,
        forall|i: int, at: int|
            0 <= i < k && 0 <= at < PAGE_SIZE ==> resident_bytes(pages)[PAGE_SIZE * i + at]
                == #[trigger] resident_byte(pages, i, at),
    decreases pages.len(),
{
    if pages.len() > 0 {
        let head = pages.drop_last();
        let below = if k < pages.len() {
            k
        } else {
            k - 1
        };
        assert forall|i: int| 0 <= i < head.len() implies (#[trigger] head[i] is Some <==> i
            < below) by {
            assert(head[i] == pages[i]);
        }
        assert forall|i: int| 0 <= i < head.len() implies (#[trigger] head[i] matches Some(page)
            ==> page.len() == PAGE_SIZE) by {
            assert(head[i] == pages[i]);
        }
        lemma_resident_bytes_in_place(head, below);
        assert forall|i: int, at: int| 0 <= i < k && 0 <= at < PAGE_SIZE implies resident_bytes(
            pages,
        )[PAGE_SIZE * i + at] == #[trigger] resident_byte(pages, i, at) by {
            if i < below {
                assert(head[i] == pages[i]);
                assert(resident_byte(head, i, at) == resident_byte(pages, i, at));
            }
        }
    }
}

/// What a pager holds: the bytes of its save file, if it has one, and for
/// each slot the page that is resident there, if any.
#[verifier::ext_equal]
pub struct PagerView {
    pub save_file: Option<Seq<u8>>,
    pub pages: Seq<Option<Seq<u8>>>,
}

impl PagerView {
    /// There are 100 slots, and a resident page has 4096 bytes.
    pub open spec fn wf(self) -> bool {
        &&& self.pages.len() == MAX_PAGES
        &&& forall|i: int|
            0 <= i < self.pages.len() ==> (#[trigger] self.pages[i] matches Some(page)
                ==> page.len() == PAGE_SIZE)
    }

    /// A pager over `save_file` with no page resident.
    pub open spec fn fresh(save_file: Option<Seq<u8>>) -> PagerView {
        PagerView { save_file, pages: Seq::new(MAX_PAGES as nat, |i: int| None) }
    }

    /// What the first access to page `page_num` brings into memory: the
    /// page of the save file, or a page of zero bytes without a save file.
    pub open spec fn stored_page(self, page_num: int) -> Seq<u8> {
        match self.save_file {
            Some(file) => file_page(file, page_num),
            None => zero_page(),
        }
    }

    /// The bytes of page `page_num`, resident or not.
    pub open spec fn page(self, page_num: int) -> Seq<u8> {
        match self.pages[page_num] {
            Some(page) => page,
            None => self.stored_page(page_num),
        }
    }

    /// The pager with `page` resident at `page_num`.
    pub open spec fn with_page(self, page_num: int, page: Seq<u8>) -> PagerView {
        PagerView { save_file: self.save_file, pages: self.pages.update(page_num, Some(page)) }
    }

    /// The bytes of a save: the row count in eight bytes, most significant
    /// first, then every resident page in the order of the slots.
    pub open spec fn disk_image(self, nb_rows: usize) -> Seq<u8> {
        be_bytes(nb_rows as u64) + resident_bytes(self.pages)
    }
}

/// The page cache.
#[derive(Debug)]
pub struct Pager {
    save_file: Option<Vec<u8>>,
    pages: Vec<Option<Page>>,
}

impl View for Pager {
    type V = PagerView;

    closed spec fn view(&self) -> PagerView {
        PagerView {
            save_file: match self.save_file {
                Some(file) => Some(file@),
                None => None,
            },
            pages: Seq::new(
                self.pages@.len(),
                |i: int|
                    match self.pages@[i] {
                        Some(page) => Some(page@),
                        None => None,
                    },
            ),
        }
    }
}

/// 100 empty slots.
fn empty_slots() -> (r: Vec<Option<Page>>)
    ensures
        r@.len() == MAX_PAGES,
        forall|i: int| 0 <= i < r@.len() ==> r@[i] is None,
{
    let mut pages: Vec<Option<Page>> = Vec::new();
    let mut i: usize = 0;
    while i < MAX_PAGES
        invariant
            i <= MAX_PAGES,
            pages@.len() == i,
            forall|j: int| 0 <= j < i ==> pages@[j] is None,
        decreases MAX_PAGES - i,
    {
        pages.push(None);
        i += 1;
    }
    pages
}

/// The page that is resident in slot `page_num`.
fn resident_page(pages: &mut Vec<Option<Page>>, page_num: usize) -> (r: &mut Page)
    requires
        page_num < old(pages)@.len(),
        old(pages)@[page_num as int] is Some,
    ensures
        *r == old(pages)@[page_num as int]->0,
        final(pages)@ == old(pages)@.update(page_num as int, Some(*final(r))),
    no_unwind
{
    match &mut pages[page_num] {
        Some(page) => page,
        None => unreached(),
    }
}

impl Pager {
    pub const MAX_PAGES: usize = MAX_PAGES;

    /// Every pager has its 100 slots, and its resident pages their 4096
    /// bytes.
    #[verifier::type_invariant]
    pub open spec fn is_wf(self) -> bool {
        self@.wf()
    }

    /// A pager with no page resident, over the bytes of its save file if it
    /// has one.
    pub fn new(save_file: Option<Vec<u8>>) -> (r: Self)
        ensures
            r@.wf(),
            r@ == PagerView::fresh(
                match save_file {
                    Some(file) => Some(file@),
                    None => None,
                },
            ),
    {
        let r = Self { save_file, pages: empty_slots() };
        assert(r@.pages =~= PagerView::fresh(r@.save_file).pages);
        r
    }

    /// Takes `save_file` as the pager's save file and empties every slot.
    pub fn set_open_save_file(&mut self, save_file: Vec<u8>)
        ensures
            final(self)@.wf(),
            final(self)@ == PagerView::fresh(Some(save_file@)),
    {
        proof {
            use_type_invariant(&*self);
        }
        self.save_file = Some(save_file);
        self.pages = empty_slots();
        assert(self@.pages =~= PagerView::fresh(self@.save_file).pages);
    }

    /// The page at `page_num`, brought into memory if it was not resident. A
    /// page number of 100 or more is refused, and the pager stays as it was.
    /// Otherwise the page starts out with the bytes that `page` gives for
    /// it, and what the caller leaves in it is what the slot holds.
    pub fn get_page(&mut self, page_num: usize) -> (r: Result<&mut Page, GetPageError>)
        ensures
            page_num >= MAX_PAGES ==> (r matches Err(GetPageError::MaxPageExceeded) && final(self)@
                == old(self)@),
            page_num < MAX_PAGES ==> (r matches Ok(page) && page@ == old(self)@.page(
                page_num as int,
            ) && final(self)@ =~= old(self)@.with_page(page_num as int, final(page)@)),
            final(self)@.wf(),
    {
        proof {
            use_type_invariant(&*self);
        }
        if page_num >= MAX_PAGES {
            return Err(GetPageError::MaxPageExceeded);
        }
        let ghost before = self@;
        assert(before.wf());
        if self.pages[page_num].is_none() {
            let page = match &self.save_file {
                Some(file) => Page::read_from(file.as_slice(), page_num),
                None => Page::default(),
            };
            self.pages[page_num] = Some(page);
        }
        assert(self@.save_file == before.save_file);
        assert(self@.pages =~= before.pages.update(
            page_num as int,
            Some(before.page(page_num as int)),
        ));
        Ok(resident_page(&mut self.pages, page_num))
    }
}

impl Pager {
    /// The bytes to write for a save. With a path, or with a save file of
    /// the pager's own, the save is the row count followed by the resident
    /// pages; without either there is nothing to write to. A save without a
    /// path goes to the pager's save file, which then holds those bytes.
    pub fn save_to_disk(&mut self, file_path: Option<&str>, nb_rows: usize) -> (r: Result<
        Vec<u8>,
        SaveToDiskError,
    >)
        ensures
            final(self)@.wf(),
            final(self)@.pages == old(self)@.pages,
            file_path is None && old(self)@.save_file is None ==> (r matches Err(
                SaveToDiskError::NoFileToWriteProvided,
            ) && final(self)@ == old(self)@),
            file_path is Some || old(self)@.save_file is Some ==> (r matches Ok(image) && image@
                == old(self)@.disk_image(nb_rows) && final(self)@.save_file == (if file_path
                is Some {
                old(self)@.save_file
            } else {
                Some(image@)
            })),
    {
        proof {
            use_type_invariant(&*self);
        }
        if file_path.is_none() && self.save_file.is_none() {
            return Err(SaveToDiskError::NoFileToWriteProvided);
        }
        let ghost before = self@;
        let image = self.disk_image(nb_rows);
        if file_path.is_none() {
            self.save_file = Some(slice_to_vec(image.as_slice()));
        }
        assert(self@.pages =~= before.pages);
        Ok(image)
    }

    /// The bytes of a save with `nb_rows` as the row count.
    pub fn disk_image(&self, nb_rows: usize) -> (image: Vec<u8>)
        ensures
            image@ == self@.disk_image(nb_rows),
    {
        proof {
            use_type_invariant(self);
        }
        let ghost pages = self@.pages;
        let header = u64_to_be_bytes(nb_rows as u64);
        let mut image: Vec<u8> = Vec::new();
        image.extend_from_slice(header.as_slice());
        let mut i: usize = 0;
        assert(pages.subrange(0, 0) =~= Seq::empty());
        while i < MAX_PAGES
            invariant
                i <= MAX_PAGES,
                self.pages@.len() == MAX_PAGES,
                self@.pages == pages,
                image@ == be_bytes(nb_rows as u64) + resident_bytes(pages.subrange(0, i as int)),
            decreases MAX_PAGES - i,
        {
            proof {
                let done = pages.subrange(0, i + 1);
                assert(done.drop_last() =~= pages.subrange(0, i as int));
                assert(done.last() == pages[i as int]);
            }
            match &self.pages[i] {
                Some(page) => {
                    image.extend_from_slice(page.0.as_slice());
                },
                None => {},
            }
            assert(image@ =~= be_bytes(nb_rows as u64) + resident_bytes(
                pages.subrange(0, i + 1),
            ));
            i += 1;
        }
        assert(pages.subrange(0, MAX_PAGES as int) =~= pages);
        image
    }
}

impl Pager {
    /// The bytes of the page at `page_num`, which has to be below 100, to be
    /// read in place. The page is brought into memory if it was not resident.
    pub fn get(&mut self, page_num: usize) -> (r: SlicePointer<'_>)
        requires
            page_num < MAX_PAGES,
        ensures
            r.is_part(old(self)@.page(page_num as int), 0, PAGE_SIZE as int),
            final(self)@ == old(self)@.with_page(
                page_num as int,
                old(self)@.page(page_num as int),
            ),
            final(self)@.wf(),
    {
        match self.get_page(page_num) {
            Ok(page) => SlicePointer::from(page.0.as_slice()),
            Err(_) => unreached(),
        }
    }
}

impl Default for Pager {
    /// A pager without a save file and with no page resident.
    fn default() -> (r: Self)
        ensures
            r@.wf(),
            r@ == PagerView::fresh(None),
    {
        Pager::new(None)
    }
}

} // verus!
