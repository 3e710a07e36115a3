//! The layout of a leaf node of a tree of rows within a page: a header of
//! ten bytes, then cells of a four-byte key and a row each.

use crate::codec::{be_value, u32_from_be_bytes};
use crate::slice_pointer::{clipped_len, SlicePointer, SlicePointerMut};
use vstd::pervasive::unreached;
use vstd::prelude::*;
use vstd::slice::spec_slice_len;

verus! {

/// Number of bytes of a cell's key.
pub const KEY_SIZE: usize = 4;

/// Number of bytes of a cell's value, a row.
pub const VALUE_SIZE: usize = 295;

/// Number of bytes of a cell.
pub const CELL_SIZE: usize = 299;

/// Where the number of cells stands in a leaf node.
pub const LEAF_NODE_NB_CELLS_OFFSET: usize = 6;

/// Number of bytes of the header of a leaf node.
pub const LEAF_NODE_HEADER_SIZE: usize = 10;

/// Where cell `cell_num` starts in a leaf node.
pub open spec fn cell_offset(cell_num: int) -> int {
    LEAF_NODE_HEADER_SIZE + cell_num * CELL_SIZE
}

/// A cell of a leaf node: 299 bytes that can be read.
pub struct Cell<'a>(SlicePointer<'a>);

impl<'a> View for Cell<'a> {
    type V = Seq<u8>;

    closed spec fn view(&self) -> Seq<u8> {
        self.0@
    }
}

impl<'a> Cell<'a> {
    pub const KEY_SIZE: usize = KEY_SIZE;

    pub const KEY_OFFSET: usize = 0;

    pub const VALUE_SIZE: usize = VALUE_SIZE;

    pub const VALUE_OFFSET: usize = 4;

    pub const SIZE: usize = CELL_SIZE;

    #[verifier::type_invariant]
    spec fn is_cell(self) -> bool {
        self.0.is_part(self.0.owner(), self.0.start(), CELL_SIZE as int)
    }

    /// The four bytes of the key.
    pub fn get_key(&self) -> (r: SlicePointer<'a>)
        ensures
            self@.len() == CELL_SIZE,
            r@ == self@.subrange(0, KEY_SIZE as int),
    {
        proof {
            use_type_invariant(self);
        }
        let mut key = self.0.clone();
        proof {
            key.lemma_is_part(self.0.owner(), self.0.start(), CELL_SIZE as int);
        }
        key.set_len(KEY_SIZE);
        proof {
            key.lemma_is_part(self.0.owner(), self.0.start(), KEY_SIZE as int);
            assert(key@ =~= self@.subrange(0, KEY_SIZE as int));
        }
        key
    }

    /// The 295 bytes of the value.
    pub fn get_value(&self) -> (r: SlicePointer<'a>)
        ensures
            self@.len() == CELL_SIZE,
            r@ == self@.subrange(KEY_SIZE as int, CELL_SIZE as int),
    {
        proof {
            use_type_invariant(self);
        }
        let mut value = self.0.clone();
        proof {
            value.lemma_is_part(self.0.owner(), self.0.start(), CELL_SIZE as int);
        }
        value.advance(KEY_SIZE);
        proof {
            value.lemma_is_part(
                self.0.owner(),
                self.0.start() + KEY_SIZE,
                clipped_len(
                    self.0.owner().len() as int,
                    self.0.start() + KEY_SIZE,
                    CELL_SIZE as int,
                ),
            );
        }
        value.set_len(VALUE_SIZE);
        proof {
            value.lemma_is_part(self.0.owner(), self.0.start() + KEY_SIZE, VALUE_SIZE as int);
            assert(value@ =~= self@.subrange(KEY_SIZE as int, CELL_SIZE as int));
        }
        value
    }
}

/// A cell of a leaf node: 299 bytes that can be written.
pub struct CellMut<'a>(SlicePointerMut<'a>);

impl<'a> View for CellMut<'a> {
    type V = Seq<u8>;

    closed spec fn view(&self) -> Seq<u8> {
        self.0@
    }
}

impl<'a> CellMut<'a> {
    #[verifier::type_invariant]
    spec fn is_cell(self) -> bool {
        self.0.is_part(self.0.owner(), self.0.start(), CELL_SIZE as int)
    }

    /// The bytes of the buffer that the cell lies in.
    pub closed spec fn owner(self) -> Seq<u8> {
        self.0.owner()
    }

    /// Where the cell starts in its buffer.
    pub closed spec fn start(self) -> int {
        self.0.start()
    }

    /// The four bytes of the key, to be written.
    pub fn get_mut_key(self) -> (r: SlicePointerMut<'a>)
        ensures
            r.is_part(self.owner(), self.start(), KEY_SIZE as int),
            r@ == self@.subrange(0, KEY_SIZE as int),
    {
        proof {
            use_type_invariant(&self);
        }
        let ghost cell = self@;
        let ghost owner = self.0.owner();
        let ghost start = self.0.start();
        let mut key = self.0;
        proof {
            key.lemma_is_part(owner, start, CELL_SIZE as int);
        }
        key.set_len(KEY_SIZE);
        proof {
            key.lemma_is_part(owner, start, KEY_SIZE as int);
            assert(key@ =~= cell.subrange(0, KEY_SIZE as int));
        }
        key
    }

    /// The 295 bytes of the value, to be written.
    pub fn get_mut_value(self) -> (r: SlicePointerMut<'a>)
        ensures
            r.is_part(self.owner(), self.start() + KEY_SIZE, VALUE_SIZE as int),
            r@ == self@.subrange(KEY_SIZE as int, CELL_SIZE as int),
    {
        proof {
            use_type_invariant(&self);
        }
        let ghost cell = self@;
        let ghost owner = self.0.owner();
        let ghost start = self.0.start();
        let mut value = self.0;
        proof {
            value.lemma_is_part(owner, start, CELL_SIZE as int);
        }
        value.advance(KEY_SIZE);
        proof {
            value.lemma_is_part(
                owner,
                start + KEY_SIZE,
                clipped_len(owner.len() as int, start + KEY_SIZE, CELL_SIZE as int),
            );
        }
        value.set_len(VALUE_SIZE);
        proof {
            value.lemma_is_part(owner, start + KEY_SIZE, VALUE_SIZE as int);
            assert(value@ =~= cell.subrange(KEY_SIZE as int, CELL_SIZE as int));
        }
        value
    }
}

/// A node of the tree, over the bytes of its page.
pub enum Node<'a> {
    Internal(SlicePointer<'a>),
    Leaf(SlicePointer<'a>),
}

impl<'a> Node<'a> {
    pub const NODE_TYPE_SIZE: usize = 1;

    pub const NODE_TYPE_OFFSET: usize = 0;

    pub const IS_ROOT_SIZE: usize = 1;

    pub const IS_ROOT_OFFSET: usize = 1;

    pub const PARENT_POINTER_SIZE: usize = 4;

    pub const PARENT_POINTER_OFFSET: usize = 2;

    pub const COMMON_NODE_HEADER_SIZE: usize = 6;

    pub const LEAF_NODE_NB_CELLS_SIZE: usize = 4;

    pub const LEAF_NODE_NB_CELLS_OFFSET: usize = LEAF_NODE_NB_CELLS_OFFSET;

    pub const LEAF_NODE_HEADER_SIZE: usize = LEAF_NODE_HEADER_SIZE;

    pub const LEAF_NODE_SPACE_FOR_CELLS: usize = 4086;

    pub const LEAF_NODE_MAX_CELLS: usize = 13;

    /// The bytes of the buffer that the node lies in.
    pub open spec fn owner(self) -> Seq<u8> {
        match self {
            Node::Internal(p) => p.owner(),
            Node::Leaf(p) => p.owner(),
        }
    }

    /// Where the node starts in its buffer.
    pub open spec fn start(self) -> int {
        match self {
            Node::Internal(p) => p.start(),
            Node::Leaf(p) => p.start(),
        }
    }

    /// The number of cells of a leaf node: the four bytes after the common
    /// header, most significant first. The node has to be a leaf whose
    /// buffer holds its header.
    pub fn leaf_node_get_nb_cells(&self) -> (r: u32)
        requires
            self is Leaf,
            self.start() + LEAF_NODE_HEADER_SIZE <= self.owner().len(),
        ensures
            r == be_value(
                self.owner().subrange(
                    self.start() + LEAF_NODE_NB_CELLS_OFFSET,
                    self.start() + LEAF_NODE_HEADER_SIZE,
                ),
            ),
    {
        match self {
            Node::Leaf(slice_pointer) => {
                let mut num_cells_ptr = slice_pointer.offset(LEAF_NODE_NB_CELLS_OFFSET);
                proof {
                    num_cells_ptr.lemma_is_part(
                        self.owner(),
                        self.start() + LEAF_NODE_NB_CELLS_OFFSET,
                        clipped_len(
                            self.owner().len() as int,
                            self.start() + LEAF_NODE_NB_CELLS_OFFSET,
                            slice_pointer@.len() as int,
                        ),
                    );
                }
                num_cells_ptr.set_len(4);
                proof {
                    num_cells_ptr.lemma_is_part(
                        self.owner(),
                        self.start() + LEAF_NODE_NB_CELLS_OFFSET,
                        4,
                    );
                }
                let num_cells_bytes = <&[u8]>::from(num_cells_ptr);
                u32_from_be_bytes(num_cells_bytes)
            },
            Node::Internal(_) => unreached(),
        }
    }

    /// Cell `cell_num` of a leaf node, whose buffer has to hold it.
    pub fn leaf_node_get_cell(&self, cell_num: usize) -> (cell: Cell<'a>)
        requires
            self is Leaf,
            self.start() + cell_offset(cell_num as int) + CELL_SIZE <= self.owner().len(),
        ensures
            cell@ == self.owner().subrange(
                self.start() + cell_offset(cell_num as int),
                self.start() + cell_offset(cell_num as int) + CELL_SIZE,
            ),
    {
        match self {
            Node::Leaf(slice_pointer) => {
                proof {
                    slice_pointer.lemma_fits();
                }
                let offset: usize = LEAF_NODE_HEADER_SIZE + cell_num * CELL_SIZE;
                let mut cell_ptr = slice_pointer.offset(offset);
                proof {
                    cell_ptr.lemma_is_part(
                        self.owner(),
                        self.start() + offset,
                        clipped_len(
                            self.owner().len() as int,
                            self.start() + offset,
                            slice_pointer@.len() as int,
                        ),
                    );
                }
                cell_ptr.set_len(CELL_SIZE);
                proof {
                    cell_ptr.lemma_is_part(self.owner(), self.start() + offset, CELL_SIZE as int);
                }
                Cell(cell_ptr)
            },
            Node::Internal(_) => unreached(),
        }
    }

    /// Cell `cell_num` of a leaf node, to be written in `page`, which has to
    /// hold it at the place that the node gives for it.
    pub fn leaf_node_get_mut_cell<'b>(&self, page: &'b mut [u8], cell_num: usize) -> (cell:
        CellMut<'b>)
        requires
            self is Leaf,
            self.start() + cell_offset(cell_num as int) + CELL_SIZE <= old(page)@.len(),
        ensures
            cell.owner() == old(page)@,
            cell.start() == self.start() + cell_offset(cell_num as int),
            cell@ == old(page)@.subrange(
                self.start() + cell_offset(cell_num as int),
                self.start() + cell_offset(cell_num as int) + CELL_SIZE,
            ),
    {
        match self {
            Node::Leaf(slice_pointer) => {
                let ghost bytes = page@;
                assert(bytes.len() <= usize::MAX) by {
                    assert(spec_slice_len(page) == bytes.len());
                }
                let start = slice_pointer.position();
                let offset: usize = LEAF_NODE_HEADER_SIZE + cell_num * CELL_SIZE;
                let mut cell_ptr = SlicePointerMut::from(page);
                proof {
                    cell_ptr.lemma_is_part(bytes, 0, bytes.len() as int);
                }
                cell_ptr.advance(start + offset);
                proof {
                    cell_ptr.lemma_is_part(
                        bytes,
                        start + offset,
                        clipped_len(
                            bytes.len() as int,
                            start + offset,
                            bytes.len() as int,
                        ),
                    );
                }
                cell_ptr.set_len(CELL_SIZE);
                proof {
                    cell_ptr.lemma_is_part(bytes, start + offset, CELL_SIZE as int);
                }
                CellMut(cell_ptr)
            },
            Node::Internal(_) => unreached(),
        }
    }
}

} // verus!
