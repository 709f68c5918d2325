//! The exception table of a method's code.
//!
//! The interpreter does not consult the table. It is decoded all the same,
//! so that the cursor stands right for what follows it.

use crate::error::{agrees, DecodeError, DecodeErrorView, Decoded};
use crate::reader::{has_bytes, in_bounds, read_u16, u16_at};
use crate::text::{decimal, push_decimal};
use vstd::prelude::*;

verus! {

/// One handler: the range of program counters it covers, where it starts,
/// and the index of the class constant it catches.
#[derive(Debug, Clone, Copy, PartialEq, Eq)]
pub struct ExceptionTableEntry {
    pub start_pc: u16,
    pub end_pc: u16,
    pub handle_pc: u16,
    pub catch_type: u16,
}

impl View for ExceptionTableEntry {
    type V = ExceptionTableEntry;

    open spec fn view(&self) -> ExceptionTableEntry {
        *self
    }
}

/// Width of an entry in bytes: four 16-bit fields.
pub const EXCEPTION_ENTRY_WIDTH: usize = 8;

/// The entry whose eight bytes start at `at`.
pub open spec fn exception_entry_at(bytes: Seq<u8>, at: int) -> ExceptionTableEntry
    recommends
        in_bounds(bytes, at, 8),
{
    ExceptionTableEntry {
        start_pc: u16_at(bytes, at),
        end_pc: u16_at(bytes, at + 2),
        handle_pc: u16_at(bytes, at + 4),
        catch_type: u16_at(bytes, at + 6),
    }
}

/// Decoding one entry at `at`.
pub open spec fn spec_exception_entry(bytes: Seq<u8>, at: int) -> Decoded<ExceptionTableEntry> {
    if in_bounds(bytes, at, 8) {
        Ok((exception_entry_at(bytes, at), 8))
    } else {
        Err(DecodeErrorView::Truncated)
    }
}

/// Decoding a table of `n` entries at `at`: entry `i` starts at
/// `at + 8 * i`.
pub open spec fn spec_exception_table(bytes: Seq<u8>, at: int, n: nat) -> Decoded<
    Seq<ExceptionTableEntry>,
> {
    if in_bounds(bytes, at, 8 * n as int) {
        Ok((Seq::new(n, |i: int| exception_entry_at(bytes, at + 8 * i)), 8 * n))
    } else {
        Err(DecodeErrorView::Truncated)
    }
}

/// The printable summary of an entry: its four fields, one to a line.
pub open spec fn spec_exception_entry_text(entry: ExceptionTableEntry) -> Seq<char> {
    "ExceptionTableEntry:\n\t\t\t- start_pc="@ + decimal(entry.start_pc as nat)
        + "\n\t\t\t- end_pc="@ + decimal(entry.end_pc as nat) + "\n\t\t\t- handle_pc="@
        + decimal(entry.handle_pc as nat) + "\n\t\t\t- catch_type="@ + decimal(
        entry.catch_type as nat,
    )
}

impl ExceptionTableEntry {
    /// The printable summary of the entry.
    pub fn to_string(&self) -> (s: String)
        ensures
            s@ == spec_exception_entry_text(*self),
    {
        let mut s = String::new();
        push_decimal(&mut s, "ExceptionTableEntry:\n\t\t\t- start_pc=", self.start_pc as u64);
        push_decimal(&mut s, "\n\t\t\t- end_pc=", self.end_pc as u64);
        push_decimal(&mut s, "\n\t\t\t- handle_pc=", self.handle_pc as u64);
        push_decimal(&mut s, "\n\t\t\t- catch_type=", self.catch_type as u64);
        s
    }

    /// Decodes the entry at the cursor.
    pub fn from_bytecodes(bytecodes: &Vec<u8>, byte_idx: &mut usize) -> (r: Result<
        ExceptionTableEntry,
        DecodeError,
    >)
        ensures
            agrees(
                r,
                *old(byte_idx),
                *final(byte_idx),
                spec_exception_entry(bytecodes@, *old(byte_idx) as int),
            ),
    {
        let mut pos: usize = *byte_idx;
        let start_pc = read_u16(bytecodes, &mut pos)?;
        let end_pc = read_u16(bytecodes, &mut pos)?;
        let handle_pc = read_u16(bytecodes, &mut pos)?;
        let catch_type = read_u16(bytecodes, &mut pos)?;
        *byte_idx = pos;
        Ok(ExceptionTableEntry { start_pc, end_pc, handle_pc, catch_type })
    }
}

/// Decodes the `n` entries at the cursor.
pub fn decode_exception_table(bytecodes: &Vec<u8>, byte_idx: &mut usize, n: u16) -> (r: Result<
    Vec<ExceptionTableEntry>,
    DecodeError,
>)
    ensures
        agrees(
            r,
            *old(byte_idx),
            *final(byte_idx),
            spec_exception_table(bytecodes@, *old(byte_idx) as int, n as nat),
        ),
{
    let start: usize = *byte_idx;
    if !has_bytes(bytecodes, start, EXCEPTION_ENTRY_WIDTH * (n as usize)) {
        return Err(DecodeError::Truncated);
    }
    let mut table: Vec<ExceptionTableEntry> = Vec::new();
    let mut pos: usize = start;
    let mut i: u16 = 0;
    while i < n
        invariant
            i <= n,
            start == *old(byte_idx),
            *byte_idx == start,
            pos == start + 8 * i,
            in_bounds(bytecodes@, start as int, 8 * n as int),
            table@.len() == i,
            forall|k: int| 0 <= k < i ==> table@[k] == exception_entry_at(bytecodes@, start + 8 * k),
        decreases n - i,
    {
        let entry = ExceptionTableEntry::from_bytecodes(bytecodes, &mut pos)?;
        table.push(entry);
        i = i + 1;
    }
    assert(table@ =~= Seq::new(n as nat, |k: int| exception_entry_at(bytecodes@, start + 8 * k)));
    *byte_idx = pos;
    Ok(table)
}

} // verus!
