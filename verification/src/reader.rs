//! Reading big-endian fields at a byte cursor.
//!
//! Each read either returns the field and moves the cursor past it, or
//! reports [`DecodeError::Truncated`] and leaves the cursor where it was.

use crate::error::{agrees, DecodeError, DecodeErrorView, Decoded};
use vstd::prelude::*;
use vstd::slice::slice_subrange;

verus! {

/// The 16-bit value whose high byte is `hi` and whose low byte is `lo`.
pub open spec fn be16(hi: u8, lo: u8) -> u16 {
    (hi as int * 0x100 + lo as int) as u16
}

/// The 32-bit value made of four bytes, most significant first.
pub open spec fn be32(b0: u8, b1: u8, b2: u8, b3: u8) -> u32 {
    (b0 as int * 0x100_0000 + b1 as int * 0x1_0000 + b2 as int * 0x100 + b3 as int) as u32
}

/// `n` bytes lie in `bytes` from position `at` on.
pub open spec fn in_bounds(bytes: Seq<u8>, at: int, n: int) -> bool {
    0 <= at && 0 <= n && at + n <= bytes.len()
}

/// The big-endian 16-bit field at `at`.
pub open spec fn u16_at(bytes: Seq<u8>, at: int) -> u16
    recommends
        in_bounds(bytes, at, 2),
{
    be16(bytes[at], bytes[at + 1])
}

/// The big-endian 32-bit field at `at`.
pub open spec fn u32_at(bytes: Seq<u8>, at: int) -> u32
    recommends
        in_bounds(bytes, at, 4),
{
    be32(bytes[at], bytes[at + 1], bytes[at + 2], bytes[at + 3])
}

/// Reading one byte at `at`.
pub open spec fn spec_read_u8(bytes: Seq<u8>, at: int) -> Decoded<u8> {
    if in_bounds(bytes, at, 1) {
        Ok((bytes[at], 1))
    } else {
        Err(DecodeErrorView::Truncated)
    }
}

/// Reading a 16-bit field at `at`.
pub open spec fn spec_read_u16(bytes: Seq<u8>, at: int) -> Decoded<u16> {
    if in_bounds(bytes, at, 2) {
        Ok((u16_at(bytes, at), 2))
    } else {
        Err(DecodeErrorView::Truncated)
    }
}

/// Reading a 32-bit field at `at`.
pub open spec fn spec_read_u32(bytes: Seq<u8>, at: int) -> Decoded<u32> {
    if in_bounds(bytes, at, 4) {
        Ok((u32_at(bytes, at), 4))
    } else {
        Err(DecodeErrorView::Truncated)
    }
}

/// Taking the `n` bytes that start at `at`.
pub open spec fn spec_read_slice(bytes: Seq<u8>, at: int, n: int) -> Decoded<Seq<u8>> {
    if in_bounds(bytes, at, n) {
        Ok((bytes.subrange(at, at + n), n as nat))
    } else {
        Err(DecodeErrorView::Truncated)
    }
}

/// Joins two bytes into a 16-bit value, high byte first.
pub fn join_u16(hi: u8, lo: u8) -> (value: u16)
    ensures
        value == be16(hi, lo),
{
    let value = ((hi as u16) << 8) | (lo as u16);
    assert(((hi as u16) << 8) | (lo as u16) == hi as u16 * 0x100 + lo as u16) by (bit_vector);
    value
}

/// Joins four bytes into a 32-bit value, most significant first.
pub fn join_u32(b0: u8, b1: u8, b2: u8, b3: u8) -> (value: u32)
    ensures
        value == be32(b0, b1, b2, b3),
{
    let value = ((b0 as u32) << 24) | ((b1 as u32) << 16) | ((b2 as u32) << 8) | (b3 as u32);
    assert(((b0 as u32) << 24) | ((b1 as u32) << 16) | ((b2 as u32) << 8) | (b3 as u32)
        == b0 as u32 * 0x100_0000 + b1 as u32 * 0x1_0000 + b2 as u32 * 0x100 + b3 as u32)
        by (bit_vector);
    value
}

/// At least `n` bytes lie in the buffer from the cursor on.
pub fn has_bytes(bytecodes: &Vec<u8>, byte_idx: usize, n: usize) -> (yes: bool)
    ensures
        yes == in_bounds(bytecodes@, byte_idx as int, n as int),
        yes ==> byte_idx + n <= usize::MAX,
{
    byte_idx <= bytecodes.len() && n <= bytecodes.len() - byte_idx
}

/// Reads the byte at the cursor.
pub fn read_u8(bytecodes: &Vec<u8>, byte_idx: &mut usize) -> (r: Result<u8, DecodeError>)
    ensures
        agrees(r, *old(byte_idx), *final(byte_idx), spec_read_u8(bytecodes@, *old(byte_idx) as int)),
{
    if !has_bytes(bytecodes, *byte_idx, 1) {
        return Err(DecodeError::Truncated);
    }
    let value = bytecodes[*byte_idx];
    *byte_idx = *byte_idx + 1;
    Ok(value)
}

/// Reads the big-endian 16-bit field at the cursor.
pub fn read_u16(bytecodes: &Vec<u8>, byte_idx: &mut usize) -> (r: Result<u16, DecodeError>)
    ensures
        agrees(
            r,
            *old(byte_idx),
            *final(byte_idx),
            spec_read_u16(bytecodes@, *old(byte_idx) as int),
        ),
{
    if !has_bytes(bytecodes, *byte_idx, 2) {
        return Err(DecodeError::Truncated);
    }
    let value = join_u16(bytecodes[*byte_idx], bytecodes[*byte_idx + 1]);
    *byte_idx = *byte_idx + 2;
    Ok(value)
}

/// Reads the big-endian 32-bit field at the cursor.
pub fn read_u32(bytecodes: &Vec<u8>, byte_idx: &mut usize) -> (r: Result<u32, DecodeError>)
    ensures
        agrees(
            r,
            *old(byte_idx),
            *final(byte_idx),
            spec_read_u32(bytecodes@, *old(byte_idx) as int),
        ),
{
    if !has_bytes(bytecodes, *byte_idx, 4) {
        return Err(DecodeError::Truncated);
    }
    let value = join_u32(
        bytecodes[*byte_idx],
        bytecodes[*byte_idx + 1],
        bytecodes[*byte_idx + 2],
        bytecodes[*byte_idx + 3],
    );
    *byte_idx = *byte_idx + 4;
    Ok(value)
}

/// Borrows the `n` bytes at the cursor, without copying them.
pub fn read_slice<'a>(bytecodes: &'a Vec<u8>, byte_idx: &mut usize, n: usize) -> (r: Result<
    &'a [u8],
    DecodeError,
>)
    ensures
        agrees(
            r,
            *old(byte_idx),
            *final(byte_idx),
            spec_read_slice(bytecodes@, *old(byte_idx) as int, n as int),
        ),
{
    if !has_bytes(bytecodes, *byte_idx, n) {
        return Err(DecodeError::Truncated);
    }
    let slice = slice_subrange(bytecodes.as_slice(), *byte_idx, *byte_idx + n);
    *byte_idx = *byte_idx + n;
    Ok(slice)
}

} // verus!
