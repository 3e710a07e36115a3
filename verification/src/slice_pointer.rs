//! Views into a part of a byte buffer: the buffer, where the part starts
//! and how long it is. A part never reaches beyond its buffer.

use crate::codec::overwrite;
use vstd::prelude::*;
use vstd::slice::{slice_subrange, slice_to_vec, spec_slice_len};
use vstd::std_specs::convert::FromSpecImpl;

verus! {

/// The length that a part keeps when its start moves to `start`: `len`
/// where the buffer has room for it, else what is left of the buffer.
pub open spec fn clipped_len(owner_len: int, start: int, len: int) -> int {
    if start + len <= owner_len {
        len
    } else {
        owner_len - start
    }
}

/// A part of a buffer that can be read.
pub struct SlicePointer<'a> {
    owner: &'a [u8],
    start: usize,
    len: usize,
}

impl<'a> Clone for SlicePointer<'a> {
    fn clone(&self) -> (r: Self)
        ensures
            r == *self,
    {
        proof {
            use_type_invariant(self);
        }
        Self { owner: self.owner, start: self.start, len: self.len }
    }
}

impl<'a> View for SlicePointer<'a> {
    type V = Seq<u8>;

    closed spec fn view(&self) -> Seq<u8> {
        self.owner@.subrange(self.start as int, self.start + self.len)
    }
}

impl<'a> SlicePointer<'a> {
    #[verifier::type_invariant]
    spec fn in_bounds(self) -> bool {
        self.start + self.len <= self.owner@.len()
    }

    /// The bytes of the buffer that the part is taken from.
    pub closed spec fn owner(self) -> Seq<u8> {
        self.owner@
    }

    /// Where the part starts in its buffer.
    pub closed spec fn start(self) -> int {
        self.start as int
    }

    /// The part of `owner` that starts at `start` and has `len` bytes.
    pub closed spec fn is_part(self, owner: Seq<u8>, start: int, len: int) -> bool {
        &&& self.owner@ == owner
        &&& self.start == start
        &&& self.len == len
        &&& 0 <= start
        &&& 0 <= len
        &&& start + len <= owner.len()
    }

    /// A part is the bytes of its buffer from its start on.
    pub proof fn lemma_is_part(self, owner: Seq<u8>, start: int, len: int)
        requires
            self.is_part(owner, start, len),
        ensures
            self@ == owner.subrange(start, start + len),
            self.owner() == owner,
            self.start() == start,
            0 <= start,
            0 <= len,
            start + len <= owner.len(),
    {
    }

    /// The length of a buffer and the start of a part are numbers of the
    /// machine.
    pub proof fn lemma_fits(self)
        ensures
            self.owner().len() <= usize::MAX,
            0 <= self.start() <= usize::MAX,
    {
        assert(spec_slice_len(self.owner) == self.owner@.len());
    }

    pub fn len(&self) -> (r: usize)
        ensures
            r == self@.len(),
            self.is_part(self.owner(), self.start(), r as int),
    {
        proof {
            use_type_invariant(self);
        }
        self.len
    }

    /// How many bytes the buffer has from the start of the part on.
    pub fn room(&self) -> (r: usize)
        ensures
            r == self.owner().len() - self.start(),
            self@.len() <= r,
    {
        proof {
            use_type_invariant(self);
        }
        self.owner.len() - self.start
    }

    /// Where the part starts in its buffer.
    pub fn position(&self) -> (r: usize)
        ensures
            r == self.start(),
            r + self@.len() <= self.owner().len(),
    {
        proof {
            use_type_invariant(self);
        }
        self.start
    }

    /// Sets the length of the part, which has to end within the buffer.
    pub fn set_len(&mut self, new_len: usize)
        requires
            old(self).start() + new_len <= old(self).owner().len(),
        ensures
            final(self).is_part(old(self).owner(), old(self).start(), new_len as int),
    {
        proof {
            use_type_invariant(&*self);
        }
        self.len = new_len;
    }

    /// The part that starts `i` bytes further on. It keeps the length of
    /// this part where the buffer has room for it, and else reaches to the
    /// end of the buffer.
    pub fn offset(&self, i: usize) -> (r: SlicePointer<'a>)
        requires
            self.start() + i <= self.owner().len(),
        ensures
            r.is_part(
                self.owner(),
                self.start() + i,
                clipped_len(self.owner().len() as int, self.start() + i, self@.len() as int),
            ),
    {
        proof {
            use_type_invariant(self);
        }
        let owner_len = self.owner.len();
        let start = self.start + i;
        let left = owner_len - start;
        let len = if self.len <= left {
            self.len
        } else {
            left
        };
        SlicePointer { owner: self.owner, start, len }
    }

    /// Moves the start of the part `i` bytes further on, as `offset` does.
    pub fn advance(&mut self, i: usize)
        requires
            old(self).start() + i <= old(self).owner().len(),
        ensures
            final(self).is_part(
                old(self).owner(),
                old(self).start() + i,
                clipped_len(
                    old(self).owner().len() as int,
                    old(self).start() + i,
                    old(self)@.len() as int,
                ),
            ),
    {
        let moved = self.offset(i);
        *self = moved;
    }
}

impl<'a> From<&'a [u8]> for SlicePointer<'a> {
    /// The whole of `slice`.
    fn from(slice: &'a [u8]) -> (r: Self)
        ensures
            r.is_part(slice@, 0, slice@.len() as int),
    {
        Self { owner: slice, start: 0, len: slice.len() }
    }
}

impl<'a> FromSpecImpl<&'a [u8]> for SlicePointer<'a> {
    open spec fn obeys_from_spec() -> bool {
        false
    }

    closed spec fn from_spec(slice: &'a [u8]) -> Self {
        SlicePointer { owner: slice, start: 0, len: 0 }
    }
}

impl<'a> From<SlicePointer<'a>> for &'a [u8] {
    /// The bytes of the part.
    fn from(slice_pointer: SlicePointer<'a>) -> (r: &'a [u8])
        ensures
            r@ == slice_pointer@,
    {
        proof {
            use_type_invariant(&slice_pointer);
        }
        let owner: &'a [u8] = slice_pointer.owner;
        let end = owner.len() - (owner.len() - slice_pointer.start - slice_pointer.len);
        slice_subrange(owner, slice_pointer.start, end)
    }
}

impl<'a> FromSpecImpl<SlicePointer<'a>> for &'a [u8] {
    open spec fn obeys_from_spec() -> bool {
        false
    }

    closed spec fn from_spec(slice_pointer: SlicePointer<'a>) -> Self {
        slice_pointer.owner
    }
}

/// A part of a buffer that can be written.
pub struct SlicePointerMut<'a> {
    owner: &'a mut [u8],
    start: usize,
    len: usize,
}

impl<'a> View for SlicePointerMut<'a> {
    type V = Seq<u8>;

    closed spec fn view(&self) -> Seq<u8> {
        self.owner@.subrange(self.start as int, self.start + self.len)
    }
}

impl<'a> SlicePointerMut<'a> {
    /// The part lies within its buffer.
    pub closed spec fn wf(self) -> bool {
        self.start + self.len <= self.owner@.len()
    }

    /// The bytes of the buffer that the part is taken from, as they are now.
    pub closed spec fn owner(self) -> Seq<u8> {
        self.owner@
    }

    /// Where the part starts in its buffer.
    pub closed spec fn start(self) -> int {
        self.start as int
    }

    /// The part of `owner` that starts at `start` and has `len` bytes.
    pub closed spec fn is_part(self, owner: Seq<u8>, start: int, len: int) -> bool {
        &&& self.owner@ == owner
        &&& self.start == start
        &&& self.len == len
        &&& 0 <= start
        &&& 0 <= len
        &&& start + len <= owner.len()
    }

    /// A part is the bytes of its buffer from its start on, and lies within
    /// the buffer.
    pub proof fn lemma_is_part(self, owner: Seq<u8>, start: int, len: int)
        requires
            self.is_part(owner, start, len),
        ensures
            self.wf(),
            self@ == owner.subrange(start, start + len),
            self.owner() == owner,
            self.start() == start,
            0 <= start,
            0 <= len,
            start + len <= owner.len(),
    {
    }

    pub fn len(&self) -> (r: usize)
        requires
            self.wf(),
        ensures
            r == self@.len(),
            self.is_part(self.owner(), self.start(), r as int),
    {
        self.len
    }

    /// How many bytes the buffer has from the start of the part on.
    pub fn room(&self) -> (r: usize)
        requires
            self.wf(),
        ensures
            r == self.owner().len() - self.start(),
            self@.len() <= r,
    {
        self.owner.len() - self.start
    }

    /// Sets the length of the part, which has to end within the buffer.
    pub fn set_len(&mut self, new_len: usize)
        requires
            old(self).wf(),
            old(self).start() + new_len <= old(self).owner().len(),
        ensures
            final(self).is_part(old(self).owner(), old(self).start(), new_len as int),
    {
        self.len = new_len;
    }

    /// Moves the start of the part `i` bytes further on. The part keeps its
    /// length where the buffer has room for it, and else reaches to the end
    /// of the buffer.
    pub fn advance(&mut self, i: usize)
        requires
            old(self).wf(),
            old(self).start() + i <= old(self).owner().len(),
        ensures
            final(self).is_part(
                old(self).owner(),
                old(self).start() + i,
                clipped_len(
                    old(self).owner().len() as int,
                    old(self).start() + i,
                    old(self)@.len() as int,
                ),
            ),
    {
        let owner_len = self.owner.len();
        let start = self.start + i;
        let left = owner_len - start;
        if self.len > left {
            self.len = left;
        }
        self.start = start;
    }

    /// Writes `src` over the part, which has to be as long as `src`. No
    /// other byte of the buffer changes.
    pub fn copy_from_slice(&mut self, src: &[u8])
        requires
            old(self).wf(),
            src@.len() == old(self)@.len(),
        ensures
            final(self)@ == src@,
            final(self).is_part(
                overwrite(old(self).owner(), old(self).start(), src@),
                old(self).start(),
                src@.len() as int,
            ),
    {
        let owner_len = self.owner.len();
        let mut i: usize = 0;
        while i < src.len()
            invariant
                i <= src@.len(),
                owner_len == self.owner@.len(),
                self.start == old(self).start,
                self.len == old(self).len,
                self.len == src@.len(),
                self.owner@.len() == old(self).owner@.len(),
                self.start + self.len <= self.owner@.len(),
                forall|j: int|
                    0 <= j < self.owner@.len() && !(self.start <= j < self.start + i)
                        ==> self.owner@[j] == old(self).owner@[j],
                forall|j: int|
                    self.start <= j < self.start + i ==> self.owner@[j] == src@[j - self.start],
            decreases src@.len() - i,
        {
            let at = self.start + i;
            self.owner[at] = src[i];
            i += 1;
        }
        assert(self.owner@ =~= overwrite(old(self).owner@, old(self).start as int, src@));
        assert(self@ =~= src@);
    }

    /// The bytes of the part.
    pub fn to_vec(&self) -> (r: Vec<u8>)
        requires
            self.wf(),
        ensures
            r@ == self@,
    {
        let end = self.owner.len() - (self.owner.len() - self.start - self.len);
        slice_to_vec(slice_subrange(&*self.owner, self.start, end))
    }
}

impl<'a> From<&'a mut [u8]> for SlicePointerMut<'a> {
    /// The whole of `slice`.
    fn from(slice: &'a mut [u8]) -> (r: Self)
        ensures
            r.is_part(old(slice)@, 0, old(slice)@.len() as int),
    {
        let len = slice.len();
        Self { owner: slice, start: 0, len }
    }
}

impl<'a> FromSpecImpl<&'a mut [u8]> for SlicePointerMut<'a> {
    open spec fn obeys_from_spec() -> bool {
        false
    }

    closed spec fn from_spec(slice: &'a mut [u8]) -> Self {
        SlicePointerMut { owner: slice, start: 0, len: 0 }
    }
}

} // verus!
