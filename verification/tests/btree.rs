use my_db::btree::{Cell, Node};
use my_db::cursor::Cursor;
use my_db::pager::Pager;
use my_db::row::{Email, Id, Row, Username};
use my_db::slice_pointer::{SlicePointer, SlicePointerMut};
use my_db::table::Table;

fn page() -> Vec<u8> {
    (0..4096usize).map(|i| (i % 251) as u8).collect()
}

#[test]
fn layout_of_a_leaf_node() {
    assert_eq!(Cell::KEY_SIZE, 4);
    assert_eq!(Cell::KEY_OFFSET, 0);
    assert_eq!(Cell::VALUE_SIZE, 295);
    assert_eq!(Cell::VALUE_OFFSET, 4);
    assert_eq!(Cell::SIZE, 299);
    assert_eq!(Node::NODE_TYPE_SIZE, 1);
    assert_eq!(Node::NODE_TYPE_OFFSET, 0);
    assert_eq!(Node::IS_ROOT_SIZE, 1);
    assert_eq!(Node::IS_ROOT_OFFSET, 1);
    assert_eq!(Node::PARENT_POINTER_SIZE, 4);
    assert_eq!(Node::PARENT_POINTER_OFFSET, 2);
    assert_eq!(Node::COMMON_NODE_HEADER_SIZE, 6);
    assert_eq!(Node::LEAF_NODE_NB_CELLS_SIZE, 4);
    assert_eq!(Node::LEAF_NODE_NB_CELLS_OFFSET, 6);
    assert_eq!(Node::LEAF_NODE_HEADER_SIZE, 10);
    assert_eq!(Node::LEAF_NODE_SPACE_FOR_CELLS, 4096 - 10);
    assert_eq!(Node::LEAF_NODE_MAX_CELLS, (4096 - 10) / 299);
}

#[test]
fn slice_pointer_is_the_whole_slice_at_first() {
    let bytes = page();
    let pointer = SlicePointer::from(&bytes[..]);
    assert_eq!(pointer.len(), 4096);
    assert_eq!(pointer.room(), 4096);
    assert_eq!(pointer.position(), 0);
    assert_eq!(<&[u8]>::from(pointer), &bytes[..]);
}

#[test]
fn slice_pointer_narrows_within_its_buffer() {
    let bytes = page();
    let mut pointer = SlicePointer::from(&bytes[..]);
    pointer.advance(100);
    assert_eq!(pointer.len(), 3996);
    pointer.set_len(10);
    assert_eq!(<&[u8]>::from(pointer.clone()), &bytes[100..110]);
    let further = pointer.offset(3996);
    assert_eq!(further.len(), 0);
    assert_eq!(further.position(), 4096);
    let clipped = pointer.offset(3990);
    assert_eq!(clipped.len(), 6);
    let near = pointer.offset(5);
    assert_eq!(<&[u8]>::from(near), &bytes[105..115]);
    pointer.set_len(3996);
    assert_eq!(pointer.len(), 3996);
}

#[test]
fn slice_pointer_mut_writes_its_part_only() {
    let mut bytes = vec![0u8; 16];
    {
        let mut pointer = SlicePointerMut::from(&mut bytes[..]);
        assert_eq!(pointer.len(), 16);
        pointer.advance(4);
        assert_eq!(pointer.len(), 12);
        assert_eq!(pointer.room(), 12);
        pointer.set_len(3);
        pointer.copy_from_slice(&[1, 2, 3]);
        assert_eq!(pointer.to_vec(), vec![1, 2, 3]);
    }
    assert_eq!(bytes, vec![0, 0, 0, 0, 1, 2, 3, 0, 0, 0, 0, 0, 0, 0, 0, 0]);
}

#[test]
fn number_of_cells_is_read_from_the_header() {
    let mut bytes = vec![0u8; 4096];
    bytes[6..10].copy_from_slice(&[0, 0, 1, 2]);
    let node = Node::Leaf(SlicePointer::from(&bytes[..]));
    assert_eq!(node.leaf_node_get_nb_cells(), 258);
    bytes[6..10].copy_from_slice(&[255, 255, 255, 255]);
    let node = Node::Leaf(SlicePointer::from(&bytes[..]));
    assert_eq!(node.leaf_node_get_nb_cells(), u32::MAX);
}

#[test]
fn cell_lies_behind_the_header() {
    let bytes = page();
    let node = Node::Leaf(SlicePointer::from(&bytes[..]));
    let first = node.leaf_node_get_cell(0);
    assert_eq!(<&[u8]>::from(first.get_key()), &bytes[10..14]);
    assert_eq!(<&[u8]>::from(first.get_value()), &bytes[14..309]);
    let last = node.leaf_node_get_cell(12);
    assert_eq!(<&[u8]>::from(last.get_key()), &bytes[10 + 12 * 299..14 + 12 * 299]);
    assert_eq!(<&[u8]>::from(last.get_value()), &bytes[14 + 12 * 299..10 + 13 * 299]);
}

#[test]
fn cell_is_written_in_place() {
    let bytes = vec![0u8; 4096];
    let mut target = vec![0u8; 4096];
    let node = Node::Leaf(SlicePointer::from(&bytes[..]));
    node.leaf_node_get_mut_cell(&mut target[..], 1)
        .get_mut_key()
        .copy_from_slice(&[9, 8, 7, 6]);
    node.leaf_node_get_mut_cell(&mut target[..], 1)
        .get_mut_value()
        .copy_from_slice(&[5u8; 295]);
    assert!(target[..309].iter().all(|b| *b == 0));
    assert_eq!(&target[309..313], &[9, 8, 7, 6]);
    assert!(target[313..608].iter().all(|b| *b == 5));
    assert!(target[608..].iter().all(|b| *b == 0));
}

#[test]
fn cursor_walks_the_rows() {
    let mut table = Table::new(Pager::default());
    for n in 0..3u64 {
        table
            .write_row(Row::new(
                Id::new(n + 1),
                Username::new("u".to_owned()),
                Email::new("e".to_owned()),
            ))
            .unwrap();
    }
    let mut cursor = Cursor::at_start(table);
    let mut ids = Vec::new();
    while !cursor.is_end_of_table() {
        let bytes = <&[u8]>::from(cursor.get());
        assert_eq!(bytes.len(), 295);
        ids.push(bytes[7]);
        cursor.advance();
    }
    assert_eq!(ids, vec![1, 2, 3]);
    let cursor = Cursor::at_end(cursor.into_table());
    assert!(cursor.is_end_of_table());
}

#[test]
fn table_and_pager_give_their_bytes_in_place() {
    let mut table = Table::new(Pager::default());
    table
        .write_row(Row::new(
            Id::new(7),
            Username::new("u".to_owned()),
            Email::new("e".to_owned()),
        ))
        .unwrap();
    assert_eq!(<&[u8]>::from(table.get(0))[7], 7);
    let mut pager = Pager::default();
    assert_eq!(pager.get(3).len(), 4096);
}
