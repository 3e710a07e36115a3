use my_db::open::{open_table, read_data_from_file, CreateTableError, ReadDataFromFileError};
use my_db::pager::Pager;
use my_db::row::{Email, Id, Row, Username};
use my_db::save::write_table_to_disk;
use my_db::table::Table;

#[test]
fn data_of_a_file_is_its_row_count_and_its_pages() {
    let mut file = vec![0u8; 8 + 2 * 4096];
    file[6] = 1;
    file[7] = 2;
    file[8] = 7;
    file[8 + 4096] = 9;
    let (nb_rows, pages) = read_data_from_file(&file).unwrap();
    assert_eq!(nb_rows, 258);
    assert_eq!(pages.len(), 2);
    assert_eq!(pages[0].0[0], 7);
    assert_eq!(pages[1].0[0], 9);
}

#[test]
fn file_of_a_header_alone_has_no_pages() {
    let (nb_rows, pages) = read_data_from_file(&[0, 0, 0, 0, 0, 0, 0, 5]).unwrap();
    assert_eq!(nb_rows, 5);
    assert!(pages.is_empty());
}

#[test]
fn file_shorter_than_its_header_has_not_enough_data() {
    assert!(matches!(
        read_data_from_file(&[0u8; 7]),
        Err(ReadDataFromFileError::NotEnoughData)
    ));
    assert!(matches!(
        read_data_from_file(&[]),
        Err(ReadDataFromFileError::NotEnoughData)
    ));
    assert!(matches!(open_table(vec![0u8; 7]), Err(CreateTableError::NotEnoughData)));
    assert!(matches!(open_table(vec![]), Err(CreateTableError::NotEnoughData)));
}

#[test]
fn file_that_ends_within_a_page_is_corrupted() {
    let mut file = vec![0u8; 8 + 4096 + 1];
    file[7] = 3;
    file[8] = 4;
    match read_data_from_file(&file) {
        Err(ReadDataFromFileError::FileIsCorrupted(nb_rows, pages)) => {
            assert_eq!(nb_rows, 3);
            assert_eq!(pages.len(), 1);
            assert_eq!(pages[0].0[0], 4);
        }
        _ => panic!("the file has to be refused"),
    }
}

#[test]
fn file_that_counts_too_many_rows_is_corrupted() {
    let mut file = vec![0u8; 8];
    file[6] = 5;
    file[7] = 21;
    assert!(matches!(open_table(file), Err(CreateTableError::FileIsCorrupted)));
    let mut file = vec![0u8; 8];
    file[0] = 1;
    assert!(matches!(open_table(file), Err(CreateTableError::FileIsCorrupted)));
    let mut file = vec![0u8; 8];
    file[6] = 5;
    file[7] = 20;
    assert_eq!(open_table(file).unwrap().get_nb_rows(), 1300);
}

#[test]
fn table_is_opened_with_the_rows_of_its_file() {
    let mut table = Table::new(Pager::default());
    for n in 0..20u64 {
        table
            .write_row(Row::new(
                Id::new(n),
                Username::new(format!("user{n}")),
                Email::new(format!("user{n}@example.com")),
            ))
            .unwrap();
    }
    let image = write_table_to_disk(&table);
    assert_eq!(image.len(), 8 + 2 * 4096);
    let mut reopened = open_table(image).unwrap();
    assert_eq!(reopened.get_nb_rows(), 20);
    for n in 0..20u64 {
        let row = reopened.get_row(n as usize).unwrap().unwrap();
        assert_eq!(**row.id(), n);
        assert_eq!(row.username().as_str(), format!("user{n}"));
        assert_eq!(row.email().as_str(), format!("user{n}@example.com"));
    }
}
