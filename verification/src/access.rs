//! One access of any scalar type, by the width of the type.

use crate::failure::Failure;
use crate::primitive::{
    checked_read, checked_write, checked_write_bytes, cread_u16, cread_u32, cread_u64, cread_u8,
    cwrite_u16, cwrite_u32, cwrite_u64, cwrite_u8, gread_u16, gread_u32, gread_u64, gread_u8,
    gwrite_u16, gwrite_u32, gwrite_u64, gwrite_u8, splice,
};
use crate::scalar::ScalarType;
use crate::value::lemma_word_limits;
use crate::word::{word_bytes, word_limit, word_value, Endian};
use vstd::prelude::*;

verus! {

/// Reads the bit pattern of one scalar of type `ty` at `*cursor` and moves
/// the cursor past it, or reports why the access failed and leaves the cursor
/// alone.
pub(crate) fn read_word(src: &[u8], cursor: &mut usize, ty: ScalarType, order: Endian) -> (r: Result<
    u64,
    Failure,
>)
    ensures
        match r {
            Ok(bits) => checked_read(src@, *old(cursor) as int, ty.spec_width() as int, order)
                == Ok::<nat, Failure>(bits as nat) && *final(cursor) == *old(cursor)
                + ty.spec_width(),
            Err(f) => checked_read(src@, *old(cursor) as int, ty.spec_width() as int, order)
                == Err::<nat, Failure>(f) && *final(cursor) == *old(cursor),
        },
{
    let w: usize = ty.width();
    if w == 1 {
        match gread_u8(src, cursor, order) {
            Ok(v) => Ok(v as u64),
            Err(f) => Err(f),
        }
    } else if w == 2 {
        match gread_u16(src, cursor, order) {
            Ok(v) => Ok(v as u64),
            Err(f) => Err(f),
        }
    } else if w == 4 {
        match gread_u32(src, cursor, order) {
            Ok(v) => Ok(v as u64),
            Err(f) => Err(f),
        }
    } else {
        gread_u64(src, cursor, order)
    }
}

/// Writes the bit pattern `bits` as one scalar of type `ty` at `*cursor` and
/// moves the cursor past it, or reports why the access failed and leaves
/// buffer and cursor alone.
pub(crate) fn write_word(dst: &mut [u8], bits: u64, cursor: &mut usize, ty: ScalarType, order: Endian) -> (r:
    Result<usize, Failure>)
    requires
        (bits as nat) < word_limit(ty.spec_width()),
    ensures
        r == checked_write(old(dst)@.len() as int, *old(cursor) as int, ty.spec_width() as int),
        final(dst)@ == checked_write_bytes(
            old(dst)@,
            *old(cursor) as int,
            ty.spec_width() as int,
            bits as nat,
            order,
        ),
        r is Ok ==> *final(cursor) == *old(cursor) + ty.spec_width(),
        r is Err ==> *final(cursor) == *old(cursor),
{
    proof {
        lemma_word_limits();
    }
    let w: usize = ty.width();
    if w == 1 {
        gwrite_u8(dst, bits as u8, cursor, order)
    } else if w == 2 {
        gwrite_u16(dst, bits as u16, cursor, order)
    } else if w == 4 {
        gwrite_u32(dst, bits as u32, cursor, order)
    } else {
        gwrite_u64(dst, bits, cursor, order)
    }
}

/// Reads the bit pattern of one scalar of type `ty` at `at`, in a buffer
/// that holds it.
pub(crate) fn read_word_unchecked(src: &[u8], at: usize, ty: ScalarType, order: Endian) -> (bits: u64)
    requires
        at + ty.spec_width() <= src@.len(),
    ensures
        bits as nat == word_value(src@.subrange(at as int, at + ty.spec_width()), order),
{
    let w: usize = ty.width();
    if w == 1 {
        cread_u8(src, at, order) as u64
    } else if w == 2 {
        cread_u16(src, at, order) as u64
    } else if w == 4 {
        cread_u32(src, at, order) as u64
    } else {
        cread_u64(src, at, order)
    }
}

/// Writes the bit pattern `bits` as one scalar of type `ty` at `at`, in a
/// buffer that has room for it.
pub(crate) fn write_word_unchecked(dst: &mut [u8], bits: u64, at: usize, ty: ScalarType, order: Endian)
    requires
        at + ty.spec_width() <= old(dst)@.len(),
        (bits as nat) < word_limit(ty.spec_width()),
    ensures
        final(dst)@ == splice(old(dst)@, at as int, word_bytes(bits as nat, ty.spec_width(), order)),
{
    proof {
        lemma_word_limits();
    }
    let w: usize = ty.width();
    if w == 1 {
        cwrite_u8(dst, bits as u8, at, order)
    } else if w == 2 {
        cwrite_u16(dst, bits as u16, at, order)
    } else if w == 4 {
        cwrite_u32(dst, bits as u32, at, order)
    } else {
        cwrite_u64(dst, bits, at, order)
    }
}

} // verus!
