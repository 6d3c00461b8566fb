use vstd::prelude::*;

use crate::error::Error;

verus! {

/// True when `size` more bytes can be taken at `off` from a buffer of
/// `len` bytes.
pub open spec fn can_take(len: int, off: int, size: int) -> bool {
    off + size <= len
}

/// The little-endian `u16` at offset `i`.
pub open spec fn u16_le_at(b: Seq<u8>, i: int) -> u16
    recommends
        0 <= i,
        i + 2 <= b.len(),
{
    (b[i] + b[i + 1] * 0x100) as u16
}

/// The little-endian `u32` at offset `i`.
pub open spec fn u32_le_at(b: Seq<u8>, i: int) -> u32
    recommends
        0 <= i,
        i + 4 <= b.len(),
{
    (b[i] + b[i + 1] * 0x100 + b[i + 2] * 0x1_0000 + b[i + 3] * 0x100_0000) as u32
}

/// The big-endian `u32` at offset `i`.
pub open spec fn u32_be_at(b: Seq<u8>, i: int) -> u32
    recommends
        0 <= i,
        i + 4 <= b.len(),
{
    (b[i] * 0x100_0000 + b[i + 1] * 0x1_0000 + b[i + 2] * 0x100 + b[i + 3]) as u32
}

/// The little-endian `u64` at offset `i`.
pub open spec fn u64_le_at(b: Seq<u8>, i: int) -> u64
    recommends
        0 <= i,
        i + 8 <= b.len(),
{
    (b[i] + b[i + 1] * 0x100 + b[i + 2] * 0x1_0000 + b[i + 3] * 0x100_0000 + b[i + 4]
        * 0x1_0000_0000 + b[i + 5] * 0x100_0000_0000 + b[i + 6] * 0x1_0000_0000_0000 + b[i + 7]
        * 0x100_0000_0000_0000) as u64
}

/// Takes the next `size` bytes of `buffer` and advances the cursor; fails
/// with `UnexpectedEndOfInput`, leaving the cursor unchanged, when fewer
/// than `size` bytes remain.
pub fn get_slice<'a>(buffer: &'a [u8], offset: &mut usize, size: usize) -> (r: Result<
    &'a [u8],
    Error,
>)
    ensures
        match r {
            Ok(s) => can_take(buffer@.len() as int, *old(offset) as int, size as int) && s@
                == buffer@.subrange(*old(offset) as int, *old(offset) + size) && *final (offset)
                == *old(offset) + size,
            Err(e) => e == Error::UnexpectedEndOfInput && !can_take(
                buffer@.len() as int,
                *old(offset) as int,
                size as int,
            ) && *final (offset) == *old(offset),
        },
{
    let off = *offset;
    if off <= buffer.len() && size <= buffer.len() - off {
        let s = vstd::slice::slice_subrange(buffer, off, off + size);
        *offset = off + size;
        Ok(s)
    } else {
        Err(Error::UnexpectedEndOfInput)
    }
}

/// Reads one byte and advances the cursor.
pub fn read_u8(buffer: &[u8], offset: &mut usize) -> (r: Result<u8, Error>)
    ensures
        match r {
            Ok(v) => can_take(buffer@.len() as int, *old(offset) as int, 1) && v == buffer@[*old(
                offset,
            ) as int] && *final (offset) == *old(offset) + 1,
            Err(e) => e == Error::UnexpectedEndOfInput && !can_take(
                buffer@.len() as int,
                *old(offset) as int,
                1,
            ) && *final (offset) == *old(offset),
        },
{
    let off = *offset;
    if off < buffer.len() {
        let v = buffer[off];
        *offset = off + 1;
        Ok(v)
    } else {
        Err(Error::UnexpectedEndOfInput)
    }
}

/// Reads a little-endian `u16` and advances the cursor.
pub fn read_u16_le(buffer: &[u8], offset: &mut usize) -> (r: Result<u16, Error>)
    ensures
        match r {
            Ok(v) => can_take(buffer@.len() as int, *old(offset) as int, 2) && v == u16_le_at(
                buffer@,
                *old(offset) as int,
            ) && *final (offset) == *old(offset) + 2,
            Err(e) => e == Error::UnexpectedEndOfInput && !can_take(
                buffer@.len() as int,
                *old(offset) as int,
                2,
            ) && *final (offset) == *old(offset),
        },
{
    let off = *offset;
    if off <= buffer.len() && 2 <= buffer.len() - off {
        let v = buffer[off] as u16 + buffer[off + 1] as u16 * 0x100;
        *offset = off + 2;
        Ok(v)
    } else {
        Err(Error::UnexpectedEndOfInput)
    }
}

/// Reads a little-endian `u32` and advances the cursor.
pub fn read_u32_le(buffer: &[u8], offset: &mut usize) -> (r: Result<u32, Error>)
    ensures
        match r {
            Ok(v) => can_take(buffer@.len() as int, *old(offset) as int, 4) && v == u32_le_at(
                buffer@,
                *old(offset) as int,
            ) && *final (offset) == *old(offset) + 4,
            Err(e) => e == Error::UnexpectedEndOfInput && !can_take(
                buffer@.len() as int,
                *old(offset) as int,
                4,
            ) && *final (offset) == *old(offset),
        },
{
    let off = *offset;
    if off <= buffer.len() && 4 <= buffer.len() - off {
        let v = buffer[off] as u32 + buffer[off + 1] as u32 * 0x100 + buffer[off + 2] as u32
            * 0x1_0000 + buffer[off + 3] as u32 * 0x100_0000;
        *offset = off + 4;
        Ok(v)
    } else {
        Err(Error::UnexpectedEndOfInput)
    }
}

/// Reads a big-endian `u32` and advances the cursor.
pub fn read_u32_be(buffer: &[u8], offset: &mut usize) -> (r: Result<u32, Error>)
    ensures
        match r {
            Ok(v) => can_take(buffer@.len() as int, *old(offset) as int, 4) && v == u32_be_at(
                buffer@,
                *old(offset) as int,
            ) && *final (offset) == *old(offset) + 4,
            Err(e) => e == Error::UnexpectedEndOfInput && !can_take(
                buffer@.len() as int,
                *old(offset) as int,
                4,
            ) && *final (offset) == *old(offset),
        },
{
    let off = *offset;
    if off <= buffer.len() && 4 <= buffer.len() - off {
        let v = buffer[off] as u32 * 0x100_0000 + buffer[off + 1] as u32 * 0x1_0000 + buffer[off
            + 2] as u32 * 0x100 + buffer[off + 3] as u32;
        *offset = off + 4;
        Ok(v)
    } else {
        Err(Error::UnexpectedEndOfInput)
    }
}

/// Reads a little-endian `u64` and advances the cursor.
pub fn read_u64_le(buffer: &[u8], offset: &mut usize) -> (r: Result<u64, Error>)
    ensures
        match r {
            Ok(v) => can_take(buffer@.len() as int, *old(offset) as int, 8) && v == u64_le_at(
                buffer@,
                *old(offset) as int,
            ) && *final (offset) == *old(offset) + 8,
            Err(e) => e == Error::UnexpectedEndOfInput && !can_take(
                buffer@.len() as int,
                *old(offset) as int,
                8,
            ) && *final (offset) == *old(offset),
        },
{
    let off = *offset;
    if off <= buffer.len() && 8 <= buffer.len() - off {
        let v = buffer[off] as u64 + buffer[off + 1] as u64 * 0x100 + buffer[off + 2] as u64
            * 0x1_0000 + buffer[off + 3] as u64 * 0x100_0000 + buffer[off + 4] as u64
            * 0x1_0000_0000 + buffer[off + 5] as u64 * 0x100_0000_0000 + buffer[off + 6] as u64
            * 0x1_0000_0000_0000 + buffer[off + 7] as u64 * 0x100_0000_0000_0000;
        *offset = off + 8;
        Ok(v)
    } else {
        Err(Error::UnexpectedEndOfInput)
    }
}

} // verus!
