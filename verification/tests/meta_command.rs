use my_db::meta_command::{
    do_meta_command, is_meta_command, meta_command_kind, meta_command_save, MetaCommandError,
    MetaCommandKind, MetaCommandOutput, MetaCommandSaveError,
};
use my_db::pager::{Pager, SaveToDiskError};
use my_db::row::{Email, Id, Row, Username};
use my_db::table::Table;
use my_db::text::{find_second_word, has_prefix, same_text};

#[test]
fn meta_command_starts_with_a_dot() {
    assert!(is_meta_command(".exit"));
    assert!(is_meta_command("."));
    assert!(!is_meta_command(""));
    assert!(!is_meta_command(" .exit"));
    assert!(!is_meta_command("select"));
}

#[test]
fn kind_of_a_command() {
    assert_eq!(meta_command_kind(".exit"), MetaCommandKind::Exit);
    assert_eq!(meta_command_kind(".exit "), MetaCommandKind::Unknown);
    assert_eq!(meta_command_kind(".save"), MetaCommandKind::Save);
    assert_eq!(meta_command_kind(".saved x"), MetaCommandKind::Save);
    assert_eq!(meta_command_kind(".sav"), MetaCommandKind::Unknown);
    assert_eq!(meta_command_kind(""), MetaCommandKind::Unknown);
}

#[test]
fn exit_in_either_case() {
    let mut table = Table::new(Pager::default());
    assert!(matches!(do_meta_command(&mut table, ".exit"), Ok(MetaCommandOutput::Exit)));
    assert!(matches!(do_meta_command(&mut table, ".EXIT"), Ok(MetaCommandOutput::Exit)));
}

#[test]
fn unknown_command_is_refused() {
    let mut table = Table::new(Pager::default());
    assert!(matches!(
        do_meta_command(&mut table, ".tables"),
        Err(MetaCommandError::UnknownMetaCommandError)
    ));
}

#[test]
fn save_without_a_path_or_a_save_file_fails() {
    let mut table = Table::new(Pager::default());
    assert!(matches!(
        do_meta_command(&mut table, ".save"),
        Err(MetaCommandError::MetaCommandSave(MetaCommandSaveError::SaveToDisk(
            SaveToDiskError::NoFileToWriteProvided
        )))
    ));
    assert!(matches!(
        meta_command_save(&mut table, ".save   "),
        Err(MetaCommandSaveError::SaveToDisk(SaveToDiskError::NoFileToWriteProvided))
    ));
}

#[test]
fn save_gives_the_path_and_the_bytes() {
    let mut table = Table::new(Pager::default());
    table
        .write_row(Row::new(
            Id::new(1),
            Username::new("a".to_owned()),
            Email::new("a@x".to_owned()),
        ))
        .unwrap();
    match do_meta_command(&mut table, ".SAVE  db.bin  more") {
        Ok(MetaCommandOutput::Save(saved)) => {
            assert_eq!(saved.file_path.as_deref(), Some("db.bin"));
            assert_eq!(saved.image.len(), 8 + 4096);
            assert_eq!(&saved.image[..8], &[0, 0, 0, 0, 0, 0, 0, 1]);
        }
        _ => panic!("the save has to succeed"),
    }
}

#[test]
fn save_without_a_path_goes_to_the_save_file() {
    let mut table = Table::new(Pager::new(Some(vec![0u8; 8])));
    let saved = meta_command_save(&mut table, ".save").unwrap();
    assert_eq!(saved.file_path, None);
    assert_eq!(saved.image, vec![0u8; 8]);
}

#[test]
fn second_word_of_a_line() {
    assert_eq!(find_second_word(".save a.db"), Some("a.db"));
    assert_eq!(find_second_word("  .save \t a.db\n"), Some("a.db"));
    assert_eq!(find_second_word(".save é ü"), Some("é"));
    assert_eq!(find_second_word(".save"), None);
    assert_eq!(find_second_word(""), None);
    assert_eq!(find_second_word("   "), None);
    assert_eq!(find_second_word("a\u{a0}b"), None);
}

#[test]
fn prefixes_and_equal_texts() {
    assert!(has_prefix("select", ""));
    assert!(has_prefix("select", "sel"));
    assert!(!has_prefix("sel", "select"));
    assert!(!has_prefix("sélect", "se"));
    assert!(same_text("é", "é"));
    assert!(!same_text("a", "b"));
    assert!(!same_text("a", "ab"));
}
