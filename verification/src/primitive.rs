//! The byte-access primitives that the record procedures are built on.
//!
//! Every function here hands one access to `scroll` and states what that
//! access does to the buffer and the offset. Nothing in this file is proved:
//! the contracts restate what `scroll` does for the unsigned integers.

use crate::failure::{access_failure, Failure};
use crate::word::{word_bytes, word_value, Endian};
use vstd::prelude::*;

verus! {

/// `bytes` with the positions from `at` on overwritten by `run`; every other
/// position keeps its byte.
pub open spec fn splice(bytes: Seq<u8>, at: int, run: Seq<u8>) -> Seq<u8> {
    Seq::new(
        bytes.len(),
        |p: int|
            if at <= p < at + run.len() {
                run[p - at]
            } else {
                bytes[p]
            },
    )
}

/// What a checked read of `width` bytes at `at` gives: the number spelled
/// there, or the failure of the access.
pub open spec fn checked_read(src: Seq<u8>, at: int, width: int, order: Endian) -> Result<
    nat,
    Failure,
> {
    if at + width <= src.len() {
        Ok(word_value(src.subrange(at, at + width), order))
    } else {
        Err(access_failure(at, width, src.len() as int))
    }
}

/// The buffer after a checked write of `value` in `width` bytes at `at`: the
/// bytes are replaced when the access fits, and nothing changes when it does
/// not.
pub open spec fn checked_write_bytes(
    dst: Seq<u8>,
    at: int,
    width: int,
    value: nat,
    order: Endian,
) -> Seq<u8> {
    if at + width <= dst.len() {
        splice(dst, at, word_bytes(value, width as nat, order))
    } else {
        dst
    }
}

/// What a checked write of `width` bytes at `at` reports: the width, or the
/// failure of the access.
pub open spec fn checked_write(len: int, at: int, width: int) -> Result<usize, Failure> {
    if at + width <= len {
        Ok(width as usize)
    } else {
        Err(access_failure(at, width, len))
    }
}

/// Calls `scroll::Pread::gread_with::<u8>` on `src`. When one byte is there
/// from `*offset` on, it returns the number it spells under `order` and moves
/// the offset past it; otherwise it leaves the offset alone and gives
/// `BadOffset` for a start at or behind the end, `TooBig` for a short rest.
#[verifier::external_body]
pub(crate) fn gread_u8(src: &[u8], offset: &mut usize, order: Endian) -> (r: Result<u8, Failure>)
    ensures
        match r {
            Ok(v) => checked_read(src@, *old(offset) as int, 1, order) == Ok::<nat, Failure>(
                v as nat,
            ) && *final(offset) == *old(offset) + 1,
            Err(f) => checked_read(src@, *old(offset) as int, 1, order) == Err::<nat, Failure>(f)
                && *final(offset) == *old(offset),
        },
{
    let ctx = match order {
        Endian::Little => scroll::Endian::Little,
        Endian::Big => scroll::Endian::Big,
    };
    match scroll::Pread::<scroll::Endian, scroll::Error>::gread_with::<u8>(src, offset, ctx) {
        Ok(v) => Ok(v),
        Err(scroll::Error::TooBig { size, len }) => Err(Failure::TooBig { size, len }),
        Err(scroll::Error::BadOffset(at)) => Err(Failure::BadOffset(at)),
        Err(scroll::Error::BadInput { size, .. }) => Err(Failure::BadInput { size }),
        Err(scroll::Error::Custom(_)) => Err(Failure::Custom),
        Err(scroll::Error::IO(_)) => Err(Failure::Io),
    }
}

/// Calls `scroll::Pread::gread_with::<u16>` on `src`. When two bytes are there
/// from `*offset` on, it returns the number they spell under `order` and moves
/// the offset past them; otherwise it leaves the offset alone and gives
/// `BadOffset` for a start at or behind the end, `TooBig` for a short rest.
#[verifier::external_body]
pub(crate) fn gread_u16(src: &[u8], offset: &mut usize, order: Endian) -> (r: Result<u16, Failure>)
    ensures
        match r {
            Ok(v) => checked_read(src@, *old(offset) as int, 2, order) == Ok::<nat, Failure>(
                v as nat,
            ) && *final(offset) == *old(offset) + 2,
            Err(f) => checked_read(src@, *old(offset) as int, 2, order) == Err::<nat, Failure>(f)
                && *final(offset) == *old(offset),
        },
{
    let ctx = match order {
        Endian::Little => scroll::Endian::Little,
        Endian::Big => scroll::Endian::Big,
    };
    match scroll::Pread::<scroll::Endian, scroll::Error>::gread_with::<u16>(src, offset, ctx) {
        Ok(v) => Ok(v),
        Err(scroll::Error::TooBig { size, len }) => Err(Failure::TooBig { size, len }),
        Err(scroll::Error::BadOffset(at)) => Err(Failure::BadOffset(at)),
        Err(scroll::Error::BadInput { size, .. }) => Err(Failure::BadInput { size }),
        Err(scroll::Error::Custom(_)) => Err(Failure::Custom),
        Err(scroll::Error::IO(_)) => Err(Failure::Io),
    }
}

/// Calls `scroll::Pread::gread_with::<u32>` on `src`. When four bytes are there
/// from `*offset` on, it returns the number they spell under `order` and moves
/// the offset past them; otherwise it leaves the offset alone and gives
/// `BadOffset` for a start at or behind the end, `TooBig` for a short rest.
#[verifier::external_body]
pub(crate) fn gread_u32(src: &[u8], offset: &mut usize, order: Endian) -> (r: Result<u32, Failure>)
    ensures
        match r {
            Ok(v) => checked_read(src@, *old(offset) as int, 4, order) == Ok::<nat, Failure>(
                v as nat,
            ) && *final(offset) == *old(offset) + 4,
            Err(f) => checked_read(src@, *old(offset) as int, 4, order) == Err::<nat, Failure>(f)
                && *final(offset) == *old(offset),
        },
{
    let ctx = match order {
        Endian::Little => scroll::Endian::Little,
        Endian::Big => scroll::Endian::Big,
    };
    match scroll::Pread::<scroll::Endian, scroll::Error>::gread_with::<u32>(src, offset, ctx) {
        Ok(v) => Ok(v),
        Err(scroll::Error::TooBig { size, len }) => Err(Failure::TooBig { size, len }),
        Err(scroll::Error::BadOffset(at)) => Err(Failure::BadOffset(at)),
        Err(scroll::Error::BadInput { size, .. }) => Err(Failure::BadInput { size }),
        Err(scroll::Error::Custom(_)) => Err(Failure::Custom),
        Err(scroll::Error::IO(_)) => Err(Failure::Io),
    }
}

/// Calls `scroll::Pread::gread_with::<u64>` on `src`. When eight bytes are there
/// from `*offset` on, it returns the number they spell under `order` and moves
/// the offset past them; otherwise it leaves the offset alone and gives
/// `BadOffset` for a start at or behind the end, `TooBig` for a short rest.
#[verifier::external_body]
pub(crate) fn gread_u64(src: &[u8], offset: &mut usize, order: Endian) -> (r: Result<u64, Failure>)
    ensures
        match r {
            Ok(v) => checked_read(src@, *old(offset) as int, 8, order) == Ok::<nat, Failure>(
                v as nat,
            ) && *final(offset) == *old(offset) + 8,
            Err(f) => checked_read(src@, *old(offset) as int, 8, order) == Err::<nat, Failure>(f)
                && *final(offset) == *old(offset),
        },
{
    let ctx = match order {
        Endian::Little => scroll::Endian::Little,
        Endian::Big => scroll::Endian::Big,
    };
    match scroll::Pread::<scroll::Endian, scroll::Error>::gread_with::<u64>(src, offset, ctx) {
        Ok(v) => Ok(v),
        Err(scroll::Error::TooBig { size, len }) => Err(Failure::TooBig { size, len }),
        Err(scroll::Error::BadOffset(at)) => Err(Failure::BadOffset(at)),
        Err(scroll::Error::BadInput { size, .. }) => Err(Failure::BadInput { size }),
        Err(scroll::Error::Custom(_)) => Err(Failure::Custom),
        Err(scroll::Error::IO(_)) => Err(Failure::Io),
    }
}

/// Calls `scroll::Pwrite::gwrite_with::<u8>` on `dst`. When one byte is there
/// from `*offset` on, it overwrites it with `value` spelled under `order`,
/// moves the offset past it and returns the width; otherwise it changes
/// neither buffer nor offset and gives `BadOffset` for a start at or behind
/// the end, `TooBig` for a short rest.
#[verifier::external_body]
pub(crate) fn gwrite_u8(dst: &mut [u8], value: u8, offset: &mut usize, order: Endian) -> (r:
    Result<usize, Failure>)
    ensures
        r == checked_write(old(dst)@.len() as int, *old(offset) as int, 1),
        final(dst)@ == checked_write_bytes(old(dst)@, *old(offset) as int, 1, value as nat, order),
        r is Ok ==> *final(offset) == *old(offset) + 1,
        r is Err ==> *final(offset) == *old(offset),
{
    let ctx = match order {
        Endian::Little => scroll::Endian::Little,
        Endian::Big => scroll::Endian::Big,
    };
    match scroll::Pwrite::<scroll::Endian, scroll::Error>::gwrite_with(dst, value, offset, ctx) {
        Ok(n) => Ok(n),
        Err(scroll::Error::TooBig { size, len }) => Err(Failure::TooBig { size, len }),
        Err(scroll::Error::BadOffset(at)) => Err(Failure::BadOffset(at)),
        Err(scroll::Error::BadInput { size, .. }) => Err(Failure::BadInput { size }),
        Err(scroll::Error::Custom(_)) => Err(Failure::Custom),
        Err(scroll::Error::IO(_)) => Err(Failure::Io),
    }
}

/// Calls `scroll::Pwrite::gwrite_with::<u16>` on `dst`. When two bytes are there
/// from `*offset` on, it overwrites them with `value` spelled under `order`,
/// moves the offset past them and returns the width; otherwise it changes
/// neither buffer nor offset and gives `BadOffset` for a start at or behind
/// the end, `TooBig` for a short rest.
#[verifier::external_body]
pub(crate) fn gwrite_u16(dst: &mut [u8], value: u16, offset: &mut usize, order: Endian) -> (r:
    Result<usize, Failure>)
    ensures
        r == checked_write(old(dst)@.len() as int, *old(offset) as int, 2),
        final(dst)@ == checked_write_bytes(old(dst)@, *old(offset) as int, 2, value as nat, order),
        r is Ok ==> *final(offset) == *old(offset) + 2,
        r is Err ==> *final(offset) == *old(offset),
{
    let ctx = match order {
        Endian::Little => scroll::Endian::Little,
        Endian::Big => scroll::Endian::Big,
    };
    match scroll::Pwrite::<scroll::Endian, scroll::Error>::gwrite_with(dst, value, offset, ctx) {
        Ok(n) => Ok(n),
        Err(scroll::Error::TooBig { size, len }) => Err(Failure::TooBig { size, len }),
        Err(scroll::Error::BadOffset(at)) => Err(Failure::BadOffset(at)),
        Err(scroll::Error::BadInput { size, .. }) => Err(Failure::BadInput { size }),
        Err(scroll::Error::Custom(_)) => Err(Failure::Custom),
        Err(scroll::Error::IO(_)) => Err(Failure::Io),
    }
}

/// Calls `scroll::Pwrite::gwrite_with::<u32>` on `dst`. When four bytes are there
/// from `*offset` on, it overwrites them with `value` spelled under `order`,
/// moves the offset past them and returns the width; otherwise it changes
/// neither buffer nor offset and gives `BadOffset` for a start at or behind
/// the end, `TooBig` for a short rest.
#[verifier::external_body]
pub(crate) fn gwrite_u32(dst: &mut [u8], value: u32, offset: &mut usize, order: Endian) -> (r:
    Result<usize, Failure>)
    ensures
        r == checked_write(old(dst)@.len() as int, *old(offset) as int, 4),
        final(dst)@ == checked_write_bytes(old(dst)@, *old(offset) as int, 4, value as nat, order),
        r is Ok ==> *final(offset) == *old(offset) + 4,
        r is Err ==> *final(offset) == *old(offset),
{
    let ctx = match order {
        Endian::Little => scroll::Endian::Little,
        Endian::Big => scroll::Endian::Big,
    };
    match scroll::Pwrite::<scroll::Endian, scroll::Error>::gwrite_with(dst, value, offset, ctx) {
        Ok(n) => Ok(n),
        Err(scroll::Error::TooBig { size, len }) => Err(Failure::TooBig { size, len }),
        Err(scroll::Error::BadOffset(at)) => Err(Failure::BadOffset(at)),
        Err(scroll::Error::BadInput { size, .. }) => Err(Failure::BadInput { size }),
        Err(scroll::Error::Custom(_)) => Err(Failure::Custom),
        Err(scroll::Error::IO(_)) => Err(Failure::Io),
    }
}

/// Calls `scroll::Pwrite::gwrite_with::<u64>` on `dst`. When eight bytes are there
/// from `*offset` on, it overwrites them with `value` spelled under `order`,
/// moves the offset past them and returns the width; otherwise it changes
/// neither buffer nor offset and gives `BadOffset` for a start at or behind
/// the end, `TooBig` for a short rest.
#[verifier::external_body]
pub(crate) fn gwrite_u64(dst: &mut [u8], value: u64, offset: &mut usize, order: Endian) -> (r:
    Result<usize, Failure>)
    ensures
        r == checked_write(old(dst)@.len() as int, *old(offset) as int, 8),
        final(dst)@ == checked_write_bytes(old(dst)@, *old(offset) as int, 8, value as nat, order),
        r is Ok ==> *final(offset) == *old(offset) + 8,
        r is Err ==> *final(offset) == *old(offset),
{
    let ctx = match order {
        Endian::Little => scroll::Endian::Little,
        Endian::Big => scroll::Endian::Big,
    };
    match scroll::Pwrite::<scroll::Endian, scroll::Error>::gwrite_with(dst, value, offset, ctx) {
        Ok(n) => Ok(n),
        Err(scroll::Error::TooBig { size, len }) => Err(Failure::TooBig { size, len }),
        Err(scroll::Error::BadOffset(at)) => Err(Failure::BadOffset(at)),
        Err(scroll::Error::BadInput { size, .. }) => Err(Failure::BadInput { size }),
        Err(scroll::Error::Custom(_)) => Err(Failure::Custom),
        Err(scroll::Error::IO(_)) => Err(Failure::Io),
    }
}

/// Calls `scroll::Cread::cread_with::<u8>` on `src`, which panics unless
/// one byte is there from `offset` on, and returns the number it spells under
/// `order`.
#[verifier::external_body]
pub(crate) fn cread_u8(src: &[u8], offset: usize, order: Endian) -> (v: u8)
    requires
        offset + 1 <= src@.len(),
    ensures
        v as nat == word_value(src@.subrange(offset as int, offset + 1), order),
{
    let ctx = match order {
        Endian::Little => scroll::Endian::Little,
        Endian::Big => scroll::Endian::Big,
    };
    scroll::Cread::<scroll::Endian>::cread_with::<u8>(src, offset, ctx)
}

/// Calls `scroll::Cread::cread_with::<u16>` on `src`, which panics unless
/// two bytes are there from `offset` on, and returns the number they spell under
/// `order`.
#[verifier::external_body]
pub(crate) fn cread_u16(src: &[u8], offset: usize, order: Endian) -> (v: u16)
    requires
        offset + 2 <= src@.len(),
    ensures
        v as nat == word_value(src@.subrange(offset as int, offset + 2), order),
{
    let ctx = match order {
        Endian::Little => scroll::Endian::Little,
        Endian::Big => scroll::Endian::Big,
    };
    scroll::Cread::<scroll::Endian>::cread_with::<u16>(src, offset, ctx)
}

/// Calls `scroll::Cread::cread_with::<u32>` on `src`, which panics unless
/// four bytes are there from `offset` on, and returns the number they spell under
/// `order`.
#[verifier::external_body]
pub(crate) fn cread_u32(src: &[u8], offset: usize, order: Endian) -> (v: u32)
    requires
        offset + 4 <= src@.len(),
    ensures
        v as nat == word_value(src@.subrange(offset as int, offset + 4), order),
{
    let ctx = match order {
        Endian::Little => scroll::Endian::Little,
        Endian::Big => scroll::Endian::Big,
    };
    scroll::Cread::<scroll::Endian>::cread_with::<u32>(src, offset, ctx)
}

/// Calls `scroll::Cread::cread_with::<u64>` on `src`, which panics unless
/// eight bytes are there from `offset` on, and returns the number they spell under
/// `order`.
#[verifier::external_body]
pub(crate) fn cread_u64(src: &[u8], offset: usize, order: Endian) -> (v: u64)
    requires
        offset + 8 <= src@.len(),
    ensures
        v as nat == word_value(src@.subrange(offset as int, offset + 8), order),
{
    let ctx = match order {
        Endian::Little => scroll::Endian::Little,
        Endian::Big => scroll::Endian::Big,
    };
    scroll::Cread::<scroll::Endian>::cread_with::<u64>(src, offset, ctx)
}

/// Calls `scroll::Cwrite::cwrite_with::<u8>` on `dst`, which panics unless
/// one byte is there from `offset` on, and overwrites it with `value` spelled
/// under `order`.
#[verifier::external_body]
pub(crate) fn cwrite_u8(dst: &mut [u8], value: u8, offset: usize, order: Endian)
    requires
        offset + 1 <= old(dst)@.len(),
    ensures
        final(dst)@ == splice(old(dst)@, offset as int, word_bytes(value as nat, 1, order)),
{
    let ctx = match order {
        Endian::Little => scroll::Endian::Little,
        Endian::Big => scroll::Endian::Big,
    };
    scroll::Cwrite::<scroll::Endian>::cwrite_with(dst, value, offset, ctx)
}

/// Calls `scroll::Cwrite::cwrite_with::<u16>` on `dst`, which panics unless
/// two bytes are there from `offset` on, and overwrites them with `value` spelled
/// under `order`.
#[verifier::external_body]
pub(crate) fn cwrite_u16(dst: &mut [u8], value: u16, offset: usize, order: Endian)
    requires
        offset + 2 <= old(dst)@.len(),
    ensures
        final(dst)@ == splice(old(dst)@, offset as int, word_bytes(value as nat, 2, order)),
{
    let ctx = match order {
        Endian::Little => scroll::Endian::Little,
        Endian::Big => scroll::Endian::Big,
    };
    scroll::Cwrite::<scroll::Endian>::cwrite_with(dst, value, offset, ctx)
}

/// Calls `scroll::Cwrite::cwrite_with::<u32>` on `dst`, which panics unless
/// four bytes are there from `offset` on, and overwrites them with `value` spelled
/// under `order`.
#[verifier::external_body]
pub(crate) fn cwrite_u32(dst: &mut [u8], value: u32, offset: usize, order: Endian)
    requires
        offset + 4 <= old(dst)@.len(),
    ensures
        final(dst)@ == splice(old(dst)@, offset as int, word_bytes(value as nat, 4, order)),
{
    let ctx = match order {
        Endian::Little => scroll::Endian::Little,
        Endian::Big => scroll::Endian::Big,
    };
    scroll::Cwrite::<scroll::Endian>::cwrite_with(dst, value, offset, ctx)
}

/// Calls `scroll::Cwrite::cwrite_with::<u64>` on `dst`, which panics unless
/// eight bytes are there from `offset` on, and overwrites them with `value` spelled
/// under `order`.
#[verifier::external_body]
pub(crate) fn cwrite_u64(dst: &mut [u8], value: u64, offset: usize, order: Endian)
    requires
        offset + 8 <= old(dst)@.len(),
    ensures
        final(dst)@ == splice(old(dst)@, offset as int, word_bytes(value as nat, 8, order)),
{
    let ctx = match order {
        Endian::Little => scroll::Endian::Little,
        Endian::Big => scroll::Endian::Big,
    };
    scroll::Cwrite::<scroll::Endian>::cwrite_with(dst, value, offset, ctx)
}

} // verus!
