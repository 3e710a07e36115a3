use my_db::open::open_table;
use my_db::pager::Pager;
use my_db::row::{DeserializeError, Email, Id, Row, Username};
use my_db::save::write_table_to_disk;
use my_db::table::{GetRowError, Table, WriteRowError};

fn row(id: u64, username: &str, email: &str) -> Row {
    Row::new(
        Id::new(id),
        Username::new(username.to_owned()),
        Email::new(email.to_owned()),
    )
}

#[test]
fn table_sizes() {
    assert_eq!(Table::ROWS_PER_PAGE, 13);
    assert_eq!(Table::MAX_ROWS, 1300);
    assert_eq!(Pager::MAX_PAGES, 100);
}

#[test]
fn new_table_is_empty() {
    let mut table = Table::new(Pager::default());
    assert_eq!(table.get_nb_rows(), 0);
    assert!(table.get_row(0).is_none());
}

#[test]
fn row_count_after_writes_is_their_number() {
    let mut table = Table::new(Pager::default());
    for n in 0..30usize {
        assert_eq!(table.get_nb_rows(), n);
        table.write_row(row(n as u64, "u", "e")).unwrap();
    }
    assert_eq!(table.get_nb_rows(), 30);
}

#[test]
fn table_takes_its_maximum_and_no_more() {
    let mut table = Table::new(Pager::default());
    for n in 0..1300u64 {
        assert!(table.write_row(row(n, "name", "mail@x")).is_ok());
    }
    assert_eq!(table.get_nb_rows(), 1300);
    assert!(matches!(
        table.write_row(row(1300, "name", "mail@x")),
        Err(WriteRowError::TableFull)
    ));
    assert_eq!(table.get_nb_rows(), 1300);
    assert_eq!(table.get_row(1299).unwrap().unwrap(), row(1299, "name", "mail@x"));
    assert_eq!(table.get_row(0).unwrap().unwrap(), row(0, "name", "mail@x"));
}

#[test]
fn read_at_the_row_count_gives_none() {
    let mut table = Table::new(Pager::default());
    table.write_row(row(1, "a", "a@x")).unwrap();
    assert!(table.get_row(1).is_none());
    assert!(table.get_row(usize::MAX).is_none());
    assert!(table.get_row(0).is_some());
}

#[test]
fn rows_read_back_as_written() {
    let mut table = Table::new(Pager::default());
    for n in 0..40u64 {
        table
            .write_row(row(n, &format!("user{n}"), &format!("user{n}@example.com")))
            .unwrap();
    }
    for n in 0..40u64 {
        assert_eq!(
            table.get_row(n as usize).unwrap().unwrap(),
            row(n, &format!("user{n}"), &format!("user{n}@example.com"))
        );
    }
}

#[test]
fn row_lies_at_its_page_and_offset() {
    let mut table = Table::new(Pager::default());
    for n in 0..14u64 {
        table.write_row(row(n + 1, "u", "e")).unwrap();
    }
    let image = write_table_to_disk(&table);
    assert_eq!(image.len(), 8 + 2 * 4096);
    for n in 0..13usize {
        let at = 8 + n * 295;
        assert_eq!(image[at + 7], n as u8 + 1);
        assert_eq!(image[at + 8], b'u');
    }
    assert!(image[8 + 13 * 295..8 + 4096].iter().all(|b| *b == 0));
    assert_eq!(image[8 + 4096 + 7], 14);
}

#[test]
fn rows_persist_through_a_save() {
    let mut table = Table::new(Pager::default());
    table.write_row(row(1, "a", "a@x")).unwrap();
    table.write_row(row(2, "b", "b@x")).unwrap();
    let image = write_table_to_disk(&table);
    assert_eq!(&image[..8], &[0, 0, 0, 0, 0, 0, 0, 2]);

    let mut reopened = open_table(image).unwrap();
    assert_eq!(reopened.get_nb_rows(), 2);
    assert_eq!(reopened.get_row(0).unwrap().unwrap(), row(1, "a", "a@x"));
    assert_eq!(reopened.get_row(1).unwrap().unwrap(), row(2, "b", "b@x"));
    assert!(reopened.get_row(2).is_none());
}

#[test]
fn page_beyond_the_end_of_a_one_row_file_is_zero() {
    let mut table = Table::new(Pager::default());
    table.write_row(row(1, "a", "a@x")).unwrap();
    let image = write_table_to_disk(&table);

    let mut pager = Pager::new(Some(image));
    let page = pager.get_page(5).unwrap();
    assert!(page.iter().all(|b| *b == 0));
    let mut table = Table::new(pager);
    table.set_nb_rows(70);
    let zero = table.get_row(66).unwrap().unwrap();
    assert_eq!(zero, row(0, "", ""));
}

#[test]
fn row_that_is_not_utf8_gives_the_error_of_its_decoding() {
    let mut file = vec![0u8; 8 + 4096];
    file[7] = 2;
    file[8 + 295 + 8] = 0xff;
    let mut table = open_table(file).unwrap();
    assert_eq!(table.get_row(0).unwrap().unwrap(), row(0, "", ""));
    assert!(matches!(
        table.get_row(1),
        Some(Err(GetRowError::Deserialize(DeserializeError::FromUtf8Error(_))))
    ));
}
