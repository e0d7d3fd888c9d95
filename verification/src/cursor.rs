//! Primitive reads from an immutable byte buffer: fixed-width little- and
//! big-endian integers.  Every reader takes the buffer and an absolute
//! offset and reports exactly which bytes it consumed; callers carry the
//! cursor explicitly.

use vstd::prelude::*;

use crate::error::AbcError;

verus! {

/// The little-endian `u16` formed by the two bytes at `off`.
pub open spec fn u16_at(buf: Seq<u8>, off: int) -> nat {
    (buf[off] + buf[off + 1] * 0x100) as nat
}

/// The big-endian `u16` formed by the two bytes at `off`.
pub open spec fn u16_be_at(buf: Seq<u8>, off: int) -> nat {
    (buf[off] * 0x100 + buf[off + 1]) as nat
}

/// The little-endian `u32` formed by the four bytes at `off`.
pub open spec fn u32_at(buf: Seq<u8>, off: int) -> nat {
    (buf[off] + buf[off + 1] * 0x100 + buf[off + 2] * 0x1_0000 + buf[off + 3] * 0x100_0000) as nat
}

/// The big-endian `u32` formed by the four bytes at `off`.
pub open spec fn u32_be_at(buf: Seq<u8>, off: int) -> nat {
    (buf[off] * 0x100_0000 + buf[off + 1] * 0x1_0000 + buf[off + 2] * 0x100 + buf[off + 3]) as nat
}

/// The little-endian `u64` formed by the eight bytes at `off`.
pub open spec fn u64_at(buf: Seq<u8>, off: int) -> nat {
    (buf[off] + buf[off + 1] * 0x100 + buf[off + 2] * 0x1_0000 + buf[off + 3] * 0x100_0000 + buf[off
        + 4] * 0x1_0000_0000 + buf[off + 5] * 0x100_0000_0000 + buf[off + 6] * 0x1_0000_0000_0000
        + buf[off + 7] * 0x100_0000_0000_0000) as nat
}

/// The big-endian `u64` formed by the eight bytes at `off`.
pub open spec fn u64_be_at(buf: Seq<u8>, off: int) -> nat {
    (buf[off] * 0x100_0000_0000_0000 + buf[off + 1] * 0x1_0000_0000_0000 + buf[off + 2]
        * 0x100_0000_0000 + buf[off + 3] * 0x1_0000_0000 + buf[off + 4] * 0x100_0000 + buf[off + 5]
        * 0x1_0000 + buf[off + 6] * 0x100 + buf[off + 7]) as nat
}

/// Reads the byte at `off`.
pub fn read_u8(buf: &[u8], off: usize) -> (r: Result<u8, AbcError>)
    ensures
        r is Ok <==> off + 1 <= buf@.len(),
        r matches Ok(v) ==> v == buf@[off as int],
        r is Err ==> r == Err::<u8, AbcError>(AbcError::OutOfBounds),
{
    if off < buf.len() {
        Ok(buf[off])
    } else {
        Err(AbcError::OutOfBounds)
    }
}

/// Reads a little-endian `u16` at `off`.
pub fn read_u16(buf: &[u8], off: usize) -> (r: Result<u16, AbcError>)
    ensures
        r is Ok <==> off + 2 <= buf@.len(),
        r matches Ok(v) ==> v == u16_at(buf@, off as int),
        r is Err ==> r == Err::<u16, AbcError>(AbcError::OutOfBounds),
{
    if buf.len() >= 2 && off <= buf.len() - 2 {
        let b0 = buf[off] as u16;
        let b1 = buf[off + 1] as u16;
        Ok(b0 + b1 * 0x100)
    } else {
        Err(AbcError::OutOfBounds)
    }
}

/// Reads a big-endian `u16` at `off`.
pub fn read_u16_be(buf: &[u8], off: usize) -> (r: Result<u16, AbcError>)
    ensures
        r is Ok <==> off + 2 <= buf@.len(),
        r matches Ok(v) ==> v == u16_be_at(buf@, off as int),
        r is Err ==> r == Err::<u16, AbcError>(AbcError::OutOfBounds),
{
    if buf.len() >= 2 && off <= buf.len() - 2 {
        let b0 = buf[off] as u16;
        let b1 = buf[off + 1] as u16;
        Ok(b0 * 0x100 + b1)
    } else {
        Err(AbcError::OutOfBounds)
    }
}

/// Reads a little-endian `u32` at `off`.
pub fn read_u32(buf: &[u8], off: usize) -> (r: Result<u32, AbcError>)
    ensures
        r is Ok <==> off + 4 <= buf@.len(),
        r matches Ok(v) ==> v == u32_at(buf@, off as int),
        r is Err ==> r == Err::<u32, AbcError>(AbcError::OutOfBounds),
{
    if buf.len() >= 4 && off <= buf.len() - 4 {
        let b0 = buf[off] as u32;
        let b1 = buf[off + 1] as u32;
        let b2 = buf[off + 2] as u32;
        let b3 = buf[off + 3] as u32;
        Ok(b0 + b1 * 0x100 + b2 * 0x1_0000 + b3 * 0x100_0000)
    } else {
        Err(AbcError::OutOfBounds)
    }
}

/// Reads a big-endian `u32` at `off`.
pub fn read_u32_be(buf: &[u8], off: usize) -> (r: Result<u32, AbcError>)
    ensures
        r is Ok <==> off + 4 <= buf@.len(),
        r matches Ok(v) ==> v == u32_be_at(buf@, off as int),
        r is Err ==> r == Err::<u32, AbcError>(AbcError::OutOfBounds),
{
    if buf.len() >= 4 && off <= buf.len() - 4 {
        let b0 = buf[off] as u32;
        let b1 = buf[off + 1] as u32;
        let b2 = buf[off + 2] as u32;
        let b3 = buf[off + 3] as u32;
        Ok(b0 * 0x100_0000 + b1 * 0x1_0000 + b2 * 0x100 + b3)
    } else {
        Err(AbcError::OutOfBounds)
    }
}

/// Reads a little-endian `u64` at `off`.
pub fn read_u64(buf: &[u8], off: usize) -> (r: Result<u64, AbcError>)
    ensures
        r is Ok <==> off + 8 <= buf@.len(),
        r matches Ok(v) ==> v == u64_at(buf@, off as int),
        r is Err ==> r == Err::<u64, AbcError>(AbcError::OutOfBounds),
{
    if buf.len() >= 8 && off <= buf.len() - 8 {
        let b0 = buf[off] as u64;
        let b1 = buf[off + 1] as u64;
        let b2 = buf[off + 2] as u64;
        let b3 = buf[off + 3] as u64;
        let b4 = buf[off + 4] as u64;
        let b5 = buf[off + 5] as u64;
        let b6 = buf[off + 6] as u64;
        let b7 = buf[off + 7] as u64;
        Ok(b0 + b1 * 0x100 + b2 * 0x1_0000 + b3 * 0x100_0000 + b4 * 0x1_0000_0000 + b5
            * 0x100_0000_0000 + b6 * 0x1_0000_0000_0000 + b7 * 0x100_0000_0000_0000)
    } else {
        Err(AbcError::OutOfBounds)
    }
}

/// Reads a big-endian `u64` at `off`.
pub fn read_u64_be(buf: &[u8], off: usize) -> (r: Result<u64, AbcError>)
    ensures
        r is Ok <==> off + 8 <= buf@.len(),
        r matches Ok(v) ==> v == u64_be_at(buf@, off as int),
        r is Err ==> r == Err::<u64, AbcError>(AbcError::OutOfBounds),
{
    if buf.len() >= 8 && off <= buf.len() - 8 {
        let b0 = buf[off] as u64;
        let b1 = buf[off + 1] as u64;
        let b2 = buf[off + 2] as u64;
        let b3 = buf[off + 3] as u64;
        let b4 = buf[off + 4] as u64;
        let b5 = buf[off + 5] as u64;
        let b6 = buf[off + 6] as u64;
        let b7 = buf[off + 7] as u64;
        Ok(b0 * 0x100_0000_0000_0000 + b1 * 0x1_0000_0000_0000 + b2 * 0x100_0000_0000 + b3
            * 0x1_0000_0000 + b4 * 0x100_0000 + b5 * 0x1_0000 + b6 * 0x100 + b7)
    } else {
        Err(AbcError::OutOfBounds)
    }
}

} // verus!
