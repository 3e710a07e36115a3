use my_db::pager::{GetPageError, Page, Pager, SaveToDiskError};

#[test]
fn page_beyond_the_slots_is_refused() {
    let mut pager = Pager::default();
    assert!(matches!(pager.get_page(100), Err(GetPageError::MaxPageExceeded)));
    assert!(matches!(pager.get_page(usize::MAX), Err(GetPageError::MaxPageExceeded)));
    assert!(pager.get_page(99).is_ok());
}

#[test]
fn fresh_page_without_a_save_file_is_zero() {
    let mut pager = Pager::new(None);
    let page = pager.get_page(7).unwrap();
    assert_eq!(page.len(), 4096);
    assert!(page.iter().all(|b| *b == 0));
}

#[test]
fn resident_page_keeps_what_was_written() {
    let mut pager = Pager::new(None);
    pager.get_page(3).unwrap().0[17] = 0xab;
    assert_eq!(pager.get_page(3).unwrap().0[17], 0xab);
    assert_eq!(pager.get_page(4).unwrap().0[17], 0);
}

#[test]
fn page_is_read_from_its_place_in_the_save_file() {
    let mut file = vec![0u8; 8 + 2 * 4096];
    file[8] = 1;
    file[8 + 4095] = 2;
    file[8 + 4096] = 3;
    let mut pager = Pager::new(Some(file));
    let first = pager.get_page(0).unwrap();
    assert_eq!(first.0[0], 1);
    assert_eq!(first.0[4095], 2);
    let second = pager.get_page(1).unwrap();
    assert_eq!(second.0[0], 3);
}

#[test]
fn short_save_file_gives_zero_padding() {
    let mut file = vec![0u8; 8 + 4096 + 10];
    for b in file.iter_mut().skip(8 + 4096) {
        *b = 9;
    }
    let mut pager = Pager::new(Some(file));
    let partly = pager.get_page(1).unwrap();
    assert!(partly.0[..10].iter().all(|b| *b == 9));
    assert!(partly.0[10..].iter().all(|b| *b == 0));
    let beyond = pager.get_page(2).unwrap();
    assert!(beyond.iter().all(|b| *b == 0));
    let far = pager.get_page(99).unwrap();
    assert!(far.iter().all(|b| *b == 0));
}

#[test]
fn save_file_shorter_than_its_header_gives_zero_pages() {
    let mut pager = Pager::new(Some(vec![1, 2, 3]));
    assert!(pager.get_page(0).unwrap().iter().all(|b| *b == 0));
}

#[test]
fn page_read_from_gives_the_bytes_of_the_page() {
    let mut file = vec![0u8; 8 + 4096];
    file[8 + 5] = 42;
    assert_eq!(Page::read_from(&file, 0).0[5], 42);
    assert!(Page::read_from(&file, 1).iter().all(|b| *b == 0));
    assert!(Page::default().iter().all(|b| *b == 0));
}

#[test]
fn save_without_a_path_or_a_save_file_has_nowhere_to_go() {
    let mut pager = Pager::new(None);
    pager.get_page(0).unwrap();
    assert!(matches!(
        pager.save_to_disk(None, 1),
        Err(SaveToDiskError::NoFileToWriteProvided)
    ));
}

#[test]
fn save_is_the_row_count_and_the_resident_pages_in_order() {
    let mut pager = Pager::new(None);
    pager.get_page(2).unwrap().0[0] = 2;
    pager.get_page(0).unwrap().0[0] = 1;
    let image = pager.save_to_disk(Some("somewhere"), 0x0102).unwrap();
    assert_eq!(image.len(), 8 + 2 * 4096);
    assert_eq!(&image[..8], &[0, 0, 0, 0, 0, 0, 1, 2]);
    assert_eq!(image[8], 1);
    assert_eq!(image[8 + 4096], 2);
}

#[test]
fn save_of_an_empty_pager_is_the_header_alone() {
    let mut pager = Pager::new(None);
    assert_eq!(pager.save_to_disk(Some("p"), 0).unwrap(), vec![0u8; 8]);
}

#[test]
fn save_without_a_path_rewrites_the_save_file() {
    let mut pager = Pager::new(Some(vec![0u8; 8]));
    pager.get_page(0).unwrap().0[1] = 5;
    let image = pager.save_to_disk(None, 1).unwrap();
    assert_eq!(image.len(), 8 + 4096);
    pager.set_open_save_file(image);
    assert_eq!(pager.get_page(0).unwrap().0[1], 5);
}

#[test]
fn set_open_save_file_empties_the_slots() {
    let mut pager = Pager::new(None);
    pager.get_page(0).unwrap().0[0] = 1;
    pager.set_open_save_file(vec![0u8; 8 + 4096]);
    assert_eq!(pager.get_page(0).unwrap().0[0], 0);
}
