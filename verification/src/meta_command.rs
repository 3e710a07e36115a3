//! Commands to the store itself, which start with a dot: `.exit` and
//! `.save`.

use crate::pager::SaveToDiskError;
use crate::table::{Table, TableView};
use crate::text::{
    find_second_word, has_prefix, lowercase, same_text, second_word, to_lowercase,
};
use vstd::prelude::*;
use vstd::string::StrSliceExecFns;

verus! {

/// Why a command failed.
#[derive(Debug)]
pub enum MetaCommandError {
    MetaCommandSave(MetaCommandSaveError),
    /// The line is no command that is known.
    UnknownMetaCommandError,
}

/// Why a save failed.
#[derive(Debug)]
pub enum MetaCommandSaveError {
    PoisonedPager,
    SaveToDisk(SaveToDiskError),
}

/// The bytes of a save and the file that they are for.
#[derive(Debug)]
pub struct SavedImage {
    /// The path that the command gave, or `None` for the save file that the
    /// pager was opened on.
    pub file_path: Option<String>,
    /// The bytes to write.
    pub image: Vec<u8>,
}

/// What is to be done for a command.
#[derive(Debug)]
pub enum MetaCommandOutput {
    /// The program is to end.
    Exit,
    /// The bytes are to be written.
    Save(SavedImage),
}

/// The kinds of command.
#[derive(Debug, PartialEq, Eq, Clone, Copy, Structural)]
pub enum MetaCommandKind {
    Exit,
    Save,
    Unknown,
}

/// The kind of the command whose lower-case form is `lowercase`.
pub open spec fn kind_of(lowercase: Seq<char>) -> MetaCommandKind {
    if lowercase == ".exit"@ {
        MetaCommandKind::Exit
    } else if ".save"@.is_prefix_of(lowercase) {
        MetaCommandKind::Save
    } else {
        MetaCommandKind::Unknown
    }
}

/// What a save command owes, given the path that it names, if any. With a
/// path, or over a pager with a save file, it gives the bytes of the save and
/// the path; the table keeps its rows and its pages, and a save without a
/// path leaves the bytes as the pager's save file. Without a path and
/// without a save file it fails, and the table stays as it was.
pub open spec fn save_done(
    before: TableView,
    after: TableView,
    path: Option<Seq<char>>,
    r: Result<SavedImage, MetaCommandSaveError>,
) -> bool {
    if path is None && before.pager.save_file is None {
        &&& after == before
        &&& r matches Err(MetaCommandSaveError::SaveToDisk(SaveToDiskError::NoFileToWriteProvided))
    } else {
        &&& r matches Ok(saved)
        &&& saved.image@ == before.pager.disk_image(before.nb_rows as usize)
        &&& saved.file_path.deep_view() == path
        &&& after.nb_rows == before.nb_rows
        &&& after.pager.pages == before.pager.pages
        &&& after.pager.save_file == (if path is Some {
            before.pager.save_file
        } else {
            Some(saved.image@)
        })
    }
}

/// Whether `buffer` is a command: whether it starts with a dot.
pub fn is_meta_command(buffer: &str) -> (r: bool)
    ensures
        r == (buffer@.len() > 0 && buffer@[0] == '.'),
{
    !buffer.is_empty() && buffer.get_char(0) == '.'
}

/// The kind of the command whose lower-case form is `lowercase`.
pub fn meta_command_kind(lowercase: &str) -> (r: MetaCommandKind)
    ensures
        r == kind_of(lowercase@),
{
    if same_text(lowercase, ".exit") {
        MetaCommandKind::Exit
    } else if has_prefix(lowercase, ".save") {
        MetaCommandKind::Save
    } else {
        MetaCommandKind::Unknown
    }
}

/// What is to be done for the command `buffer`: to end the program for
/// `.exit`, to write a save for a line that starts with `.save`, both in
/// either case of letters. Every other line is refused, and only a save
/// touches the table.
pub fn do_meta_command(table: &mut Table, buffer: &str) -> (r: Result<
    MetaCommandOutput,
    MetaCommandError,
>)
    requires
        old(table)@.wf(),
    ensures
        final(table)@.wf(),
        match kind_of(lowercase(buffer@)) {
            MetaCommandKind::Exit => r matches Ok(MetaCommandOutput::Exit) && final(table)@ == old(
                table,
            )@,
            MetaCommandKind::Save => save_done(
                old(table)@,
                final(table)@,
                second_word(buffer@),
                match r {
                    Ok(MetaCommandOutput::Save(saved)) => Ok(saved),
                    Err(MetaCommandError::MetaCommandSave(e)) => Err(e),
                    _ => Err(MetaCommandSaveError::PoisonedPager),
                },
            ),
            MetaCommandKind::Unknown => r matches Err(MetaCommandError::UnknownMetaCommandError)
                && final(table)@ == old(table)@,
        },
{
    let lowercase = to_lowercase(buffer);
    match meta_command_kind(lowercase.as_str()) {
        MetaCommandKind::Exit => Ok(MetaCommandOutput::Exit),
        MetaCommandKind::Save => match meta_command_save(table, buffer) {
            Ok(saved) => Ok(MetaCommandOutput::Save(saved)),
            Err(e) => Err(MetaCommandError::MetaCommandSave(e)),
        },
        MetaCommandKind::Unknown => Err(MetaCommandError::UnknownMetaCommandError),
    }
}

/// The save that the command `buffer` asks for: to the path that is its
/// second word, or to the pager's own save file where it names none.
pub fn meta_command_save(table: &mut Table, buffer: &str) -> (r: Result<
    SavedImage,
    MetaCommandSaveError,
>)
    requires
        old(table)@.wf(),
    ensures
        final(table)@.wf(),
        save_done(old(table)@, final(table)@, second_word(buffer@), r),
{
    let provided_file_path = find_second_word(buffer);
    match table.save_to_disk(provided_file_path) {
        Ok(image) => {
            let file_path = match provided_file_path {
                Some(path) => Some(path.to_owned()),
                None => None,
            };
            Ok(SavedImage { file_path, image })
        },
        Err(e) => Err(MetaCommandSaveError::SaveToDisk(e)),
    }
}

} // verus!
