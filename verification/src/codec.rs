//! Byte-level building blocks of the fixed-width formats: big-endian 64-bit
//! integers and zero-padded text fields.

use vstd::prelude::*;
use vstd::utf8::{
    is_char_boundary, is_char_boundary_iff_not_is_continuation_byte,
    is_char_boundary_start_end_of_seq, pop_first_scalar, valid_utf8, valid_utf8_concat,
    valid_utf8_split,
};

verus! {

/// Number of bytes of a big-endian 64-bit integer.
pub const U64_SIZE: usize = 8;

/// The byte at position `i` (0 is the most significant) of the big-endian
/// form of `x`.
pub open spec fn be_byte(x: u64, i: int) -> u8 {
    ((x as nat / pow256((7 - i) as nat)) % 256) as u8
}

/// 256 to the power `e`.
pub open spec fn pow256(e: nat) -> nat
    decreases e,
{
    if e == 0 {
        1
    } else {
        256 * pow256((e - 1) as nat)
    }
}

/// The eight bytes of `x`, most significant first.
pub open spec fn be_bytes(x: u64) -> Seq<u8> {
    Seq::new(8, |i: int| be_byte(x, i))
}

/// The number whose big-endian digits are the bytes of `b`.
pub open spec fn be_value(b: Seq<u8>) -> nat
    decreases b.len(),
{
    if b.len() == 0 {
        0
    } else {
        256 * be_value(b.drop_last()) + b.last() as nat
    }
}

/// `bytes` cut to `width` bytes, or filled up to `width` bytes with zeros.
pub open spec fn pad_zeros(bytes: Seq<u8>, width: nat) -> Seq<u8> {
    Seq::new(
        width,
        |i: int|
            if i < bytes.len() {
                bytes[i]
            } else {
                0u8
            },
    )
}

/// Length of `bytes` without its trailing zero bytes.
pub open spec fn trimmed_len(bytes: Seq<u8>) -> nat
    decreases bytes.len(),
{
    if bytes.len() > 0 && bytes.last() == 0 {
        trimmed_len(bytes.drop_last())
    } else {
        bytes.len()
    }
}

/// `bytes` without its trailing zero bytes.
pub open spec fn trim_zeros(bytes: Seq<u8>) -> Seq<u8> {
    bytes.subrange(0, trimmed_len(bytes) as int)
}

/// Whether `bytes` is empty or ends in a byte other than zero.
pub open spec fn no_trailing_zero(bytes: Seq<u8>) -> bool {
    bytes.len() == 0 || bytes.last() != 0
}

/// The powers of 256 that the places of eight bytes stand for.
pub proof fn lemma_pow256_values()
    ensures
        pow256(0) == 1,
        pow256(1) == 0x100,
        pow256(2) == 0x1_0000,
        pow256(3) == 0x100_0000,
        pow256(4) == 0x1_0000_0000,
        pow256(5) == 0x100_0000_0000,
        pow256(6) == 0x1_0000_0000_0000,
        pow256(7) == 0x100_0000_0000_0000,
{
    reveal_with_fuel(pow256, 9);
}

/// The value of eight bytes, written out digit by digit.
pub proof fn lemma_be_value_of_eight(b: Seq<u8>)
    requires
        b.len() == 8,
    ensures
        be_value(b) == b[0] * 0x100_0000_0000_0000 + b[1] * 0x1_0000_0000_0000 + b[2]
            * 0x100_0000_0000 + b[3] * 0x1_0000_0000 + b[4] * 0x100_0000 + b[5] * 0x1_0000 + b[6]
            * 0x100 + b[7],
        be_value(b) <= u64::MAX,
{
    let b7 = b.drop_last();
    let b6 = b7.drop_last();
    let b5 = b6.drop_last();
    let b4 = b5.drop_last();
    let b3 = b4.drop_last();
    let b2 = b3.drop_last();
    let b1 = b2.drop_last();
    let b0 = b1.drop_last();
    assert(be_value(b0) == 0);
    assert(be_value(b1) == b[0]);
    assert(be_value(b2) == 256 * be_value(b1) + b[1]);
    assert(be_value(b3) == 256 * be_value(b2) + b[2]);
    assert(be_value(b4) == 256 * be_value(b3) + b[3]);
    assert(be_value(b5) == 256 * be_value(b4) + b[4]);
    assert(be_value(b6) == 256 * be_value(b5) + b[5]);
    assert(be_value(b7) == 256 * be_value(b6) + b[6]);
    assert(be_value(b) == 256 * be_value(b7) + b[7]);
}

/// Reading back the big-endian form of a number gives the number.
pub proof fn lemma_be_value_of_be_bytes(x: u64)
    ensures
        be_bytes(x).len() == 8,
        be_value(be_bytes(x)) == x,
{
    let b = be_bytes(x);
    lemma_be_value_of_eight(b);
    lemma_pow256_values();
    let d0 = (x / 0x100_0000_0000_0000) % 256;
    let d1 = (x / 0x1_0000_0000_0000) % 256;
    let d2 = (x / 0x100_0000_0000) % 256;
    let d3 = (x / 0x1_0000_0000) % 256;
    let d4 = (x / 0x100_0000) % 256;
    let d5 = (x / 0x1_0000) % 256;
    let d6 = (x / 0x100) % 256;
    let d7 = x % 256;
    assert(b[0] == be_byte(x, 0) && b[0] == d0);
    assert(b[1] == be_byte(x, 1) && b[1] == d1);
    assert(b[2] == be_byte(x, 2) && b[2] == d2);
    assert(b[3] == be_byte(x, 3) && b[3] == d3);
    assert(b[4] == be_byte(x, 4) && b[4] == d4);
    assert(b[5] == be_byte(x, 5) && b[5] == d5);
    assert(b[6] == be_byte(x, 6) && b[6] == d6);
    assert(pow256(0) == 1 && (x as nat) / 1 == x as nat);
    assert(b[7] == be_byte(x, 7));
    assert(b[7] == d7);
    assert(x == d0 * 0x100_0000_0000_0000 + d1 * 0x1_0000_0000_0000 + d2 * 0x100_0000_0000 + d3
        * 0x1_0000_0000 + d4 * 0x100_0000 + d5 * 0x1_0000 + d6 * 0x100 + d7) by (bit_vector)
        requires
            d0 == (x / 0x100_0000_0000_0000) % 256,
            d1 == (x / 0x1_0000_0000_0000) % 256,
            d2 == (x / 0x100_0000_0000) % 256,
            d3 == (x / 0x1_0000_0000) % 256,
            d4 == (x / 0x100_0000) % 256,
            d5 == (x / 0x1_0000) % 256,
            d6 == (x / 0x100) % 256,
            d7 == x % 256,
    ;
}

/// Eight bytes joined into one number, most significant first.
pub open spec fn join_eight(b0: u8, b1: u8, b2: u8, b3: u8, b4: u8, b5: u8, b6: u8, b7: u8) -> u64 {
    (b0 as u64) << 56 | (b1 as u64) << 48 | (b2 as u64) << 40 | (b3 as u64) << 32 | (b4 as u64)
        << 24 | (b5 as u64) << 16 | (b6 as u64) << 8 | (b7 as u64)
}

/// Eight bytes joined by shifts are the number whose digits they are.
proof fn lemma_join_eight(b0: u8, b1: u8, b2: u8, b3: u8, b4: u8, b5: u8, b6: u8, b7: u8)
    ensures
        join_eight(b0, b1, b2, b3, b4, b5, b6, b7) == b0 * 0x100_0000_0000_0000 + b1
            * 0x1_0000_0000_0000 + b2 * 0x100_0000_0000 + b3 * 0x1_0000_0000 + b4 * 0x100_0000 + b5
            * 0x1_0000 + b6 * 0x100 + b7,
{
    assert(join_eight(b0, b1, b2, b3, b4, b5, b6, b7) == (b0 as u64) * 0x100_0000_0000_0000 + (
    b1 as u64) * 0x1_0000_0000_0000 + (b2 as u64) * 0x100_0000_0000 + (b3 as u64) * 0x1_0000_0000
        + (b4 as u64) * 0x100_0000 + (b5 as u64) * 0x1_0000 + (b6 as u64) * 0x100 + (b7 as u64))
        by (bit_vector);
}

/// What trimming leaves is a prefix that ends in no zero byte, and all that
/// it takes away is zero bytes.
pub proof fn lemma_trim_is_prefix(bytes: Seq<u8>)
    ensures
        trimmed_len(bytes) <= bytes.len(),
        trim_zeros(bytes).len() == trimmed_len(bytes),
        no_trailing_zero(trim_zeros(bytes)),
        forall|i: int| trimmed_len(bytes) <= i < bytes.len() ==> bytes[i] == 0,
    decreases bytes.len(),
{
    if bytes.len() > 0 && bytes.last() == 0 {
        let head = bytes.drop_last();
        lemma_trim_is_prefix(head);
        assert(trim_zeros(bytes) =~= trim_zeros(head));
        assert forall|i: int| trimmed_len(bytes) <= i < bytes.len() implies bytes[i] == 0 by {
            if i < head.len() {
                assert(head[i] == bytes[i]);
            }
        }
    } else {
        assert(trim_zeros(bytes) =~= bytes);
    }
}

/// A run of zero bytes is UTF-8.
pub proof fn lemma_zeros_are_utf8(zeros: Seq<u8>)
    requires
        forall|i: int| 0 <= i < zeros.len() ==> zeros[i] == 0,
    ensures
        valid_utf8(zeros),
    decreases zeros.len(),
{
    if zeros.len() > 0 {
        assert(zeros[0] == 0);
        assert(0u8 & 0x7f == 0) by (bit_vector);
        lemma_zeros_are_utf8(pop_first_scalar(zeros));
    }
}

/// Zero bytes after UTF-8 leave it UTF-8.
pub proof fn lemma_padding_is_utf8(bytes: Seq<u8>, width: nat)
    requires
        valid_utf8(bytes),
        bytes.len() <= width,
    ensures
        valid_utf8(pad_zeros(bytes, width)),
{
    let zeros = Seq::new((width - bytes.len()) as nat, |i: int| 0u8);
    lemma_zeros_are_utf8(zeros);
    valid_utf8_concat(bytes, zeros);
    assert(pad_zeros(bytes, width) =~= bytes + zeros);
}

/// Trimming undoes padding, for bytes that end in no zero byte.
pub proof fn lemma_pad_then_trim(bytes: Seq<u8>, width: nat)
    requires
        bytes.len() <= width,
        no_trailing_zero(bytes),
    ensures
        trim_zeros(pad_zeros(bytes, width)) == bytes,
    decreases width - bytes.len(),
{
    let padded = pad_zeros(bytes, width);
    if bytes.len() == width {
        assert(padded =~= bytes);
        assert(trim_zeros(padded) =~= bytes);
    } else {
        assert(padded.drop_last() =~= pad_zeros(bytes, (width - 1) as nat));
        lemma_pad_then_trim(bytes, (width - 1) as nat);
        lemma_trim_is_prefix(padded.drop_last());
        assert(padded.last() == 0);
        assert(trim_zeros(padded) =~= trim_zeros(padded.drop_last()));
    }
}

/// UTF-8 stays UTF-8 when its trailing zero bytes are cut off, and the cut
/// falls between two characters.
pub proof fn lemma_trimmed_utf8(bytes: Seq<u8>)
    requires
        valid_utf8(bytes),
    ensures
        is_char_boundary(bytes, trimmed_len(bytes) as int),
        valid_utf8(trim_zeros(bytes)),
{
    lemma_trim_is_prefix(bytes);
    let n = trimmed_len(bytes) as int;
    if n == bytes.len() {
        is_char_boundary_start_end_of_seq(bytes);
    } else {
        assert(bytes[n] == 0);
        is_char_boundary_iff_not_is_continuation_byte(bytes, n);
    }
    valid_utf8_split(bytes, n);
}

/// `dst` with the bytes from `offset` on replaced by those of `src`.
pub open spec fn overwrite(dst: Seq<u8>, offset: int, src: Seq<u8>) -> Seq<u8> {
    Seq::new(
        dst.len(),
        |i: int|
            if offset <= i < offset + src.len() {
                src[i - offset]
            } else {
                dst[i]
            },
    )
}

/// Copies `src` over the bytes of `dst` that start at `offset`.
pub fn copy_into<const N: usize>(dst: &mut [u8; N], offset: usize, src: &[u8])
    requires
        offset + src@.len() <= N,
    ensures
        final(dst)@ == overwrite(old(dst)@, offset as int, src@),
{
    let mut i: usize = 0;
    while i < src.len()
        invariant
            i <= src@.len(),
            offset + src@.len() <= N,
            forall|j: int| 0 <= j < N && !(offset <= j < offset + i) ==> dst@[j] == old(dst)@[j],
            forall|j: int| offset <= j < offset + i ==> dst@[j] == src@[j - offset],
        decreases src@.len() - i,
    {
        dst[offset + i] = src[i];
        i += 1;
    }
    assert(dst@ =~= overwrite(old(dst)@, offset as int, src@));
}

/// Writes `x` as eight bytes, most significant first.
pub fn u64_to_be_bytes(x: u64) -> (r: [u8; U64_SIZE])
    ensures
        r@ == be_bytes(x),
{
    let r = [
        (x >> 56) as u8,
        ((x >> 48) & 0xff) as u8,
        ((x >> 40) & 0xff) as u8,
        ((x >> 32) & 0xff) as u8,
        ((x >> 24) & 0xff) as u8,
        ((x >> 16) & 0xff) as u8,
        ((x >> 8) & 0xff) as u8,
        (x & 0xff) as u8,
    ];
    proof {
        lemma_pow256_values();
        assert((x >> 56) == (x / 0x100_0000_0000_0000) % 256 && (x >> 48) & 0xff == (x
            / 0x1_0000_0000_0000) % 256 && (x >> 40) & 0xff == (x / 0x100_0000_0000) % 256 && (x
            >> 32) & 0xff == (x / 0x1_0000_0000) % 256 && (x >> 24) & 0xff == (x / 0x100_0000) % 256
            && (x >> 16) & 0xff == (x / 0x1_0000) % 256 && (x >> 8) & 0xff == (x / 0x100) % 256 && x
            & 0xff == (x / 1) % 256) by (bit_vector);
        assert(r@ =~= be_bytes(x));
    }
    r
}

/// Reads eight bytes as a number, most significant first.
pub fn u64_from_be_bytes(b: &[u8; U64_SIZE]) -> (r: u64)
    ensures
        r == be_value(b@),
{
    let r = (b[0] as u64) << 56 | (b[1] as u64) << 48 | (b[2] as u64) << 40 | (b[3] as u64) << 32
        | (b[4] as u64) << 24 | (b[5] as u64) << 16 | (b[6] as u64) << 8 | (b[7] as u64);
    proof {
        lemma_join_eight(b[0], b[1], b[2], b[3], b[4], b[5], b[6], b[7]);
        lemma_be_value_of_eight(b@);
    }
    r
}

/// The value of four bytes, written out digit by digit.
pub proof fn lemma_be_value_of_four(b: Seq<u8>)
    requires
        b.len() == 4,
    ensures
        be_value(b) == b[0] * 0x100_0000 + b[1] * 0x1_0000 + b[2] * 0x100 + b[3],
        be_value(b) <= u32::MAX,
{
    let b3 = b.drop_last();
    let b2 = b3.drop_last();
    let b1 = b2.drop_last();
    let b0 = b1.drop_last();
    assert(be_value(b0) == 0);
    assert(be_value(b1) == b[0]);
    assert(be_value(b2) == 256 * be_value(b1) + b[1]);
    assert(be_value(b3) == 256 * be_value(b2) + b[2]);
    assert(be_value(b) == 256 * be_value(b3) + b[3]);
}

/// Reads four bytes as a number, most significant first.
pub fn u32_from_be_bytes(b: &[u8]) -> (r: u32)
    requires
        b@.len() == 4,
    ensures
        r == be_value(b@),
{
    let (b0, b1, b2, b3) = (b[0], b[1], b[2], b[3]);
    let r = (b0 as u32) << 24 | (b1 as u32) << 16 | (b2 as u32) << 8 | (b3 as u32);
    proof {
        assert(r == b0 * 0x100_0000 + b1 * 0x1_0000 + b2 * 0x100 + b3) by (bit_vector)
            requires
                r == (b0 as u32) << 24 | (b1 as u32) << 16 | (b2 as u32) << 8 | (b3 as u32),
        ;
        lemma_be_value_of_four(b@);
    }
    r
}

} // verus!
