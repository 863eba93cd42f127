//! Byte layout of a region container: the directory at its start and the
//! header in front of each record.

use crate::bytes::{be24_at, be32_at, read_be24, read_be32};
use vstd::prelude::*;

verus! {

/// Bytes in one sector; every record starts on a multiple of it.
pub const SECTOR_BYTES: u64 = 4096;

/// Cells along one side of the grid that a container covers.
pub const GRID_SIDE: u64 = 32;

/// Bytes in one directory entry.
pub const ENTRY_BYTES: u64 = 4;

/// Bytes in the header of a record: four of length, one of method.
pub const HEADER_BYTES: u64 = 5;

/// Where the directory entry of cell `(x, z)` starts. The cell is taken
/// modulo the grid, with a remainder that is never negative.
pub open spec fn entry_offset_of(x: int, z: int) -> int {
    ENTRY_BYTES * ((x % GRID_SIDE as int) + (z % GRID_SIDE as int) * GRID_SIDE)
}

/// Whether a directory entry names no record: its three offset bytes are
/// zero. The fourth byte, a sector count, is not consulted.
pub open spec fn entry_is_vacant(entry: Seq<u8>) -> bool
    recommends
        entry.len() == 4,
{
    be24_at(entry, 0) == 0
}

/// The byte offset of the record that a directory entry names: its first
/// three bytes, big-endian, count sectors.
pub open spec fn record_offset_of(entry: Seq<u8>) -> int
    recommends
        entry.len() == 4,
{
    be24_at(entry, 0) * SECTOR_BYTES
}

/// The length a record header declares: its first four bytes, big-endian.
/// It counts the method byte along with the payload.
pub open spec fn declared_length_of(header: Seq<u8>) -> int
    recommends
        header.len() == 5,
{
    be32_at(header, 0)
}

/// The remainder of `v` by the grid side, never negative.
fn grid_index(v: i32) -> (r: u64)
    ensures
        r == (v as int) % (GRID_SIDE as int),
        r < GRID_SIDE,
{
    let low: i32 = v & 31;
    assert(low == v % 32 && 0 <= low < 32) by (bit_vector)
        requires
            low == v & 31,
    ;
    low as u64
}

/// Computes where the directory entry of cell `(x, z)` starts.
pub fn entry_offset(x: i32, z: i32) -> (r: u64)
    ensures
        r == entry_offset_of(x as int, z as int),
        r + ENTRY_BYTES <= 2 * SECTOR_BYTES,
{
    ENTRY_BYTES * (grid_index(x) + grid_index(z) * GRID_SIDE)
}

/// Tells whether a directory entry names no record.
pub fn entry_vacant(entry: &[u8; 4]) -> (r: bool)
    ensures
        r == entry_is_vacant(entry@),
{
    read_be24(entry.as_slice(), 0) == 0
}

/// Computes the byte offset of the record that a directory entry names.
pub fn record_offset(entry: &[u8; 4]) -> (r: u64)
    ensures
        r == record_offset_of(entry@),
        r <= 0xff_ffff * SECTOR_BYTES,
{
    read_be24(entry.as_slice(), 0) as u64 * SECTOR_BYTES
}

/// Reads the length that a record header declares.
pub fn declared_length(header: &[u8; 5]) -> (r: u32)
    ensures
        r == declared_length_of(header@),
{
    read_be32(header.as_slice(), 0)
}

} // verus!
