//! Big-endian numbers inside a byte sequence.

use vstd::prelude::*;

verus! {

/// The two bytes at `at`, most significant first.
pub open spec fn be16_at(s: Seq<u8>, at: int) -> int
    recommends
        0 <= at,
        at + 2 <= s.len(),
{
    s[at] as int * 256 + s[at + 1] as int
}

/// The three bytes at `at`, most significant first.
pub open spec fn be24_at(s: Seq<u8>, at: int) -> int
    recommends
        0 <= at,
        at + 3 <= s.len(),
{
    s[at] as int * 65536 + s[at + 1] as int * 256 + s[at + 2] as int
}

/// The four bytes at `at`, most significant first, read without a sign.
pub open spec fn be32_at(s: Seq<u8>, at: int) -> int
    recommends
        0 <= at,
        at + 4 <= s.len(),
{
    s[at] as int * 16777216 + s[at + 1] as int * 65536 + s[at + 2] as int * 256 + s[at
        + 3] as int
}

/// Reads the two bytes at `at`, most significant first.
pub(crate) fn read_be16(data: &[u8], at: usize) -> (r: u16)
    requires
        at + 2 <= data@.len(),
    ensures
        r == be16_at(data@, at as int),
{
    data[at] as u16 * 256 + data[at + 1] as u16
}

/// Reads the three bytes at `at`, most significant first.
pub(crate) fn read_be24(data: &[u8], at: usize) -> (r: u32)
    requires
        at + 3 <= data@.len(),
    ensures
        r == be24_at(data@, at as int),
        r <= 0xff_ffff,
{
    data[at] as u32 * 65536 + data[at + 1] as u32 * 256 + data[at + 2] as u32
}

/// Reads the four bytes at `at`, most significant first, without a sign.
pub(crate) fn read_be32(data: &[u8], at: usize) -> (r: u32)
    requires
        at + 4 <= data@.len(),
    ensures
        r == be32_at(data@, at as int),
{
    data[at] as u32 * 16777216 + data[at + 1] as u32 * 65536 + data[at + 2] as u32 * 256
        + data[at + 3] as u32
}

} // verus!
