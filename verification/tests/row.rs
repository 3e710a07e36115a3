use my_db::row::{DeserializeError, Email, Id, Row, Username};

#[test]
fn test_id_from_into_u8_array() {
    let id_arr = <[u8; Id::MAX_SIZE]>::from(Id::new(42));
    assert_eq!(id_arr, [0, 0, 0, 0, 0, 0, 0, 42]);
    assert_eq!(Id::from(id_arr), Id::new(42));

    let id_arr = <[u8; Id::MAX_SIZE]>::from(Id::new(u64::MIN));
    assert_eq!(id_arr, [0, 0, 0, 0, 0, 0, 0, 0]);
    assert_eq!(Id::from(id_arr), Id::new(u64::MIN));

    let id_arr = <[u8; Id::MAX_SIZE]>::from(Id::new(u64::MAX));
    assert_eq!(id_arr, [255, 255, 255, 255, 255, 255, 255, 255]);
    assert_eq!(Id::from(id_arr), Id::new(u64::MAX));
}

#[test]
fn test_username_from_into_u8_array() {
    let username = Username::new("abigaël".to_owned());
    let username_array = <[u8; Username::MAX_SIZE]>::from(username.clone());
    assert_eq!(
        username_array[..username.len()],
        [97, 98, 105, 103, 97, 195, 171, 108]
    );

    let username_deser =
        Username::try_from(<[u8; Username::MAX_SIZE]>::try_from(username_array).unwrap())
            .unwrap();
    assert_eq!(username_deser, username);
}

#[test]
fn test_email_from_into_u8_array() {
    let email = Email::new("abigaël@yahoo.com".to_owned());
    let email_bytes = <[u8; Email::MAX_SIZE]>::from(email.clone());
    assert_eq!(
        email_bytes[..email.len()],
        [97, 98, 105, 103, 97, 195, 171, 108, 64, 121, 97, 104, 111, 111, 46, 99, 111, 109]
    );

    let email_deser =
        Email::try_from(<[u8; Email::MAX_SIZE]>::try_from(email_bytes).unwrap()).unwrap();
    assert_eq!(email_deser, email);
}

#[test]
fn test_row_from_into_u8_slice() {
    let id = Id::new(42);
    let username = Username::new("abigaël".to_string());
    let email = Email::new("abigaël@yahoo.com".to_string());

    let row = Row::new(id.clone(), username.clone(), email.clone());

    let arr = <[u8; Row::MAX_SIZE]>::from(row);

    assert_eq!(&arr[Row::ID_RANGE], &id.to_be_bytes());
    assert_eq!(
        &arr[Row::USERNAME_OFFSET..Row::USERNAME_OFFSET + username.len()],
        username.as_bytes()
    );
    assert_eq!(
        &arr[Row::EMAIL_OFFSET..Row::EMAIL_OFFSET + email.len()],
        email.as_bytes()
    );

    let row_deser = Row::try_from(&arr[..]).unwrap();

    assert_eq!(row_deser.id(), &id);
    assert_eq!(row_deser.username(), &username);
    assert_eq!(row_deser.email(), &email);
}

#[test]
fn row_shorter_than_its_size_is_refused_with_its_length() {
    let bytes = [0u8; 294];
    assert_eq!(
        Row::try_from(&bytes[..]),
        Err(DeserializeError::InvalidBytesSlice(294))
    );
    assert_eq!(
        Row::try_from(&bytes[..0]),
        Err(DeserializeError::InvalidBytesSlice(0))
    );
}

#[test]
fn row_with_a_field_that_is_not_utf8_is_refused() {
    let mut bytes = [0u8; 295];
    bytes[8] = 0xff;
    assert!(matches!(
        Row::try_from(&bytes[..]),
        Err(DeserializeError::FromUtf8Error(_))
    ));
    let mut bytes = [0u8; 295];
    bytes[294] = 0xc3;
    assert!(matches!(
        Row::try_from(&bytes[..]),
        Err(DeserializeError::FromUtf8Error(_))
    ));
}

#[test]
fn row_of_zero_bytes_has_empty_texts() {
    let bytes = [0u8; 300];
    let row = Row::try_from(&bytes[..]).unwrap();
    assert_eq!(**row.id(), 0);
    assert_eq!(row.username().as_str(), "");
    assert_eq!(row.email().as_str(), "");
}

#[test]
fn encoded_row_has_its_fields_at_fixed_places() {
    let row = Row::new(
        Id::new(0x0102030405060708),
        Username::new("ab".to_owned()),
        Email::new("c@d".to_owned()),
    );
    let bytes = <[u8; Row::MAX_SIZE]>::from(row);
    assert_eq!(bytes.len(), 295);
    assert_eq!(&bytes[0..8], &[1, 2, 3, 4, 5, 6, 7, 8]);
    assert_eq!(&bytes[8..10], b"ab");
    assert!(bytes[10..40].iter().all(|b| *b == 0));
    assert_eq!(&bytes[40..43], b"c@d");
    assert!(bytes[43..295].iter().all(|b| *b == 0));
}

#[test]
fn texts_of_full_width_round_trip() {
    let username = Username::new("u".repeat(32));
    let email = Email::new("e".repeat(255));
    let row = Row::new(Id::new(7), username.clone(), email.clone());
    let bytes = <[u8; Row::MAX_SIZE]>::from(row.clone());
    assert_eq!(Row::try_from(&bytes[..]), Ok(row));
}

#[test]
fn only_trailing_zero_bytes_are_trimmed() {
    let mut field = [0u8; 32];
    field[0] = 0;
    field[1] = b'a';
    field[2] = 0;
    field[3] = b'b';
    let username = Username::try_from(field).unwrap();
    assert_eq!(username.as_str(), "\0a\0b");
}

#[test]
fn text_that_ends_in_nul_comes_back_without_it() {
    let username = Username::new("a\0".to_owned());
    let field = <[u8; Username::MAX_SIZE]>::from(username);
    assert_eq!(Username::try_from(field).unwrap().as_str(), "a");
}
