use my_db::pager::Pager;
use my_db::row::{Email, Id, Row, Username};
use my_db::statement::{
    execute_insert, execute_select, execute_statement, parse_id, prepare_insert,
    prepare_statement, statement_keyword, Keyword, PrepareStatementError, StatementOutput,
    StatementOutputError, StatementType,
};
use my_db::table::{Table, WriteRowError};

fn row(id: u64, username: &str, email: &str) -> Row {
    Row::new(
        Id::new(id),
        Username::new(username.to_owned()),
        Email::new(email.to_owned()),
    )
}

fn groups(texts: &[Option<&str>]) -> Option<Vec<Option<String>>> {
    Some(texts.iter().map(|t| t.map(|s| s.to_owned())).collect())
}

#[test]
fn select_is_prepared_in_either_case() {
    assert_eq!(prepare_statement("select"), Ok(StatementType::Select));
    assert_eq!(prepare_statement("SELECT * from t"), Ok(StatementType::Select));
    assert_eq!(prepare_statement("Selection"), Ok(StatementType::Select));
}

#[test]
fn insert_is_prepared_with_its_three_fields() {
    assert_eq!(
        prepare_statement("insert 1 user1 person1@example.com"),
        Ok(StatementType::Insert(row(1, "user1", "person1@example.com")))
    );
    assert_eq!(
        prepare_statement("insert 18446744073709551615 abigaël a b c"),
        Ok(StatementType::Insert(row(u64::MAX, "abigaël", "a b c")))
    );
}

#[test]
fn line_that_is_no_statement_is_unrecognized() {
    assert_eq!(
        prepare_statement("update 1"),
        Err(PrepareStatementError::UnrecognizedStatement)
    );
    assert_eq!(prepare_statement(""), Err(PrepareStatementError::UnrecognizedStatement));
    assert_eq!(prepare_statement(" select"), Err(PrepareStatementError::UnrecognizedStatement));
}

#[test]
fn malformed_insert_is_invalid() {
    assert_eq!(prepare_statement("insert"), Err(PrepareStatementError::InvalidInsert));
    assert_eq!(prepare_statement("insert 1 a"), Err(PrepareStatementError::InvalidInsert));
    assert_eq!(prepare_statement("insert x a b"), Err(PrepareStatementError::InvalidInsert));
    assert_eq!(prepare_statement("insert -1 a b"), Err(PrepareStatementError::InvalidInsert));
    assert_eq!(prepare_statement("INSERT 1 a b"), Err(PrepareStatementError::InvalidInsert));
    assert_eq!(
        prepare_statement("insert 18446744073709551616 a b"),
        Err(PrepareStatementError::InvalidInsert)
    );
}

#[test]
fn username_of_33_bytes_is_too_long() {
    let line = format!("insert 1 {} a@x", "u".repeat(33));
    assert_eq!(
        prepare_statement(&line),
        Err(PrepareStatementError::StringTooLong("username".to_string(), 32))
    );
    let line = format!("insert 1 {} a@x", "u".repeat(32));
    assert!(prepare_statement(&line).is_ok());
    let line = format!("insert 1 {} a@x", "é".repeat(17));
    assert_eq!(
        prepare_statement(&line),
        Err(PrepareStatementError::StringTooLong("username".to_string(), 32))
    );
}

#[test]
fn email_of_256_bytes_is_too_long() {
    let line = format!("insert 1 u {}", "e".repeat(256));
    assert_eq!(
        prepare_statement(&line),
        Err(PrepareStatementError::StringTooLong("email".to_string(), 255))
    );
    let line = format!("insert 1 u {}", "e".repeat(255));
    assert!(prepare_statement(&line).is_ok());
    let line = format!("insert 1 {} {}", "u".repeat(33), "e".repeat(256));
    assert_eq!(
        prepare_statement(&line),
        Err(PrepareStatementError::StringTooLong("username".to_string(), 32))
    );
}

#[test]
fn oversized_insert_writes_nothing() {
    let mut table = Table::new(Pager::default());
    let line = format!("insert 1 {} a@x", "u".repeat(33));
    assert!(prepare_statement(&line).is_err());
    assert_eq!(table.get_nb_rows(), 0);
    assert_eq!(execute_select(&mut table).unwrap(), StatementOutput::Select(vec![]));
}

#[test]
fn keyword_is_the_prefix_of_the_line() {
    assert_eq!(statement_keyword("select"), Keyword::Select);
    assert_eq!(statement_keyword("selected"), Keyword::Select);
    assert_eq!(statement_keyword("insert 1"), Keyword::Insert);
    assert_eq!(statement_keyword("selec"), Keyword::Other);
    assert_eq!(statement_keyword(""), Keyword::Other);
    assert_eq!(statement_keyword("SELECT"), Keyword::Other);
}

#[test]
fn identifier_is_decimal_and_fits_64_bits() {
    assert_eq!(parse_id("0"), Some(0));
    assert_eq!(parse_id("42"), Some(42));
    assert_eq!(parse_id("+42"), Some(42));
    assert_eq!(parse_id("007"), Some(7));
    assert_eq!(parse_id("18446744073709551615"), Some(u64::MAX));
    assert_eq!(parse_id("18446744073709551616"), None);
    assert_eq!(parse_id("99999999999999999999999"), None);
    assert_eq!(parse_id(""), None);
    assert_eq!(parse_id("+"), None);
    assert_eq!(parse_id("-1"), None);
    assert_eq!(parse_id("1a"), None);
    assert_eq!(parse_id("١٢"), None);
}

#[test]
fn insert_from_groups() {
    assert_eq!(
        prepare_insert(groups(&[Some("insert 5 a b"), Some("5"), Some("a"), Some("b")])),
        Ok(StatementType::Insert(row(5, "a", "b")))
    );
    assert_eq!(prepare_insert(None), Err(PrepareStatementError::InvalidInsert));
    assert_eq!(
        prepare_insert(groups(&[Some("x"), Some("5"), Some("a")])),
        Err(PrepareStatementError::InvalidInsert)
    );
    assert_eq!(
        prepare_insert(groups(&[Some("x"), Some("5"), None, Some("b")])),
        Err(PrepareStatementError::InvalidInsert)
    );
    assert_eq!(
        prepare_insert(groups(&[None, Some("5"), Some("a"), Some("b")])),
        Ok(StatementType::Insert(row(5, "a", "b")))
    );
    assert_eq!(
        prepare_insert(groups(&[Some("x"), Some("five"), Some("a"), Some("b")])),
        Err(PrepareStatementError::InvalidInsert)
    );
}

#[test]
fn select_gives_the_rows_in_order() {
    let mut table = Table::new(Pager::default());
    assert_eq!(
        execute_statement(&mut table, StatementType::Insert(row(1, "a", "a@x"))).unwrap(),
        StatementOutput::InsertSuccessfull
    );
    assert_eq!(
        execute_insert(&mut table, row(2, "b", "b@x")).unwrap(),
        StatementOutput::InsertSuccessfull
    );
    assert_eq!(
        execute_statement(&mut table, StatementType::Select).unwrap(),
        StatementOutput::Select(vec![row(1, "a", "a@x"), row(2, "b", "b@x")])
    );
}

#[test]
fn insert_into_a_full_table_fails() {
    let mut table = Table::new(Pager::default());
    table.set_nb_rows(1300);
    assert!(matches!(
        execute_insert(&mut table, row(1, "a", "a@x")),
        Err(StatementOutputError::Insert(WriteRowError::TableFull))
    ));
    assert_eq!(table.get_nb_rows(), 1300);
}

#[test]
fn select_goes_on_after_a_row_that_does_not_decode() {
    let mut file = vec![0u8; 8 + 4096];
    file[7] = 3;
    file[8 + 7] = 1;
    file[8 + 295 + 8] = 0xff;
    file[8 + 2 * 295 + 7] = 3;
    let mut table = my_db::open::open_table(file).unwrap();
    match execute_select(&mut table) {
        Err(StatementOutputError::Select(rows, _)) => {
            assert_eq!(rows, vec![row(1, "", ""), row(3, "", "")]);
        }
        _ => panic!("the scan has to fail"),
    }
}
