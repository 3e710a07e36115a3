//! The bytes of a table as a save writes them.

use crate::table::Table;
use vstd::prelude::*;

verus! {

/// Why a table could not be written out.
#[derive(Debug)]
pub enum WriteTableToDiskError {
    IoError(std::io::Error),
    PoisonedTable,
    NotAllBytesWritten,
}

/// The bytes of `table` on disk: the number of its rows in eight bytes, most
/// significant first, then its resident pages in the order of their slots.
pub fn write_table_to_disk(table: &Table) -> (image: Vec<u8>)
    ensures
        image@ == table@.pager.disk_image(table@.nb_rows as usize),
{
    table.get_pager().disk_image(table.get_nb_rows())
}

} // verus!
