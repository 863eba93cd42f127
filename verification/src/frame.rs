//! Framing of a tag tree: where each value ends, going by the type bytes and
//! the declared lengths alone. A tree is framed when every type byte is
//! known, every count it declares is non-negative, the bytes it announces
//! are all there, and lists and compounds nest no deeper than the format
//! allows.
//!
//! Framing is checked before a tree is decoded, so that the decoder never
//! meets a count it cannot serve, nor a nesting deeper than it can follow.

use crate::bytes::{be16_at, be32_at, read_be16, read_be32};
use vstd::prelude::*;

verus! {

/// Type byte that closes a compound.
pub const TAG_END: u8 = 0;

/// Type byte of a byte array.
pub const TAG_BYTE_ARRAY: u8 = 7;

/// Type byte of a string.
pub const TAG_STRING: u8 = 8;

/// Type byte of a list.
pub const TAG_LIST: u8 = 9;

/// Type byte of a compound.
pub const TAG_COMPOUND: u8 = 10;

/// Type byte of an array of 32-bit integers.
pub const TAG_INT_ARRAY: u8 = 11;

/// Type byte of an array of 64-bit integers.
pub const TAG_LONG_ARRAY: u8 = 12;

/// How deep lists and compounds may nest, the root compound counted: the
/// limit that the format itself sets.
pub const MAX_DEPTH: u32 = 512;

/// The size of a scalar value of type `id`, 0 where `id` is no scalar type.
pub open spec fn scalar_width(id: u8) -> int {
    if id == 1 {
        1
    } else if id == 2 {
        2
    } else if id == 3 || id == 5 {
        4
    } else if id == 4 || id == 6 {
        8
    } else {
        0
    }
}

/// Where `width` bytes that start at `at` end, if they are all there.
pub open spec fn fixed_end(s: Seq<u8>, at: int, width: int) -> Option<int> {
    if 0 <= at && at + width <= s.len() {
        Some(at + width)
    } else {
        None
    }
}

/// Where a name or a string that starts at `at` ends: two bytes of length,
/// then that many bytes.
pub open spec fn text_end(s: Seq<u8>, at: int) -> Option<int> {
    if 0 <= at && at + 2 <= s.len() {
        fixed_end(s, at + 2, be16_at(s, at))
    } else {
        None
    }
}

/// The count that the four bytes at `at` declare, read as a signed number:
/// `None` where they are not all there or the number is negative.
pub open spec fn count_at(s: Seq<u8>, at: int) -> Option<int> {
    if 0 <= at && at + 4 <= s.len() && be32_at(s, at) < 0x8000_0000 {
        Some(be32_at(s, at))
    } else {
        None
    }
}

/// Where an array that starts at `at` ends: a count, then that many items of
/// `width` bytes.
pub open spec fn array_end(s: Seq<u8>, at: int, width: int) -> Option<int> {
    match count_at(s, at) {
        Some(count) => fixed_end(s, at + 4, count * width),
        None => None,
    }
}

/// Where the value of type `id` that starts at `at` ends, or `None` where
/// the type is unknown, a count is negative, bytes are missing, or lists
/// and compounds open more than `depth` levels.
pub open spec fn payload_end(s: Seq<u8>, id: u8, at: int, depth: nat) -> Option<int>
    decreases s.len() - at, 2int,
{
    if at < 0 || at > s.len() {
        None
    } else if scalar_width(id) > 0 {
        fixed_end(s, at, scalar_width(id))
    } else if id == TAG_BYTE_ARRAY {
        array_end(s, at, 1)
    } else if id == TAG_STRING {
        text_end(s, at)
    } else if id == TAG_LIST {
        match count_at(s, at + 1) {
            Some(count) => if depth > 0 {
                items_end(s, s[at], at + 5, count as nat, (depth - 1) as nat)
            } else {
                None
            },
            None => None,
        }
    } else if id == TAG_COMPOUND {
        if depth > 0 {
            entries_end(s, at, (depth - 1) as nat)
        } else {
            None
        }
    } else if id == TAG_INT_ARRAY {
        array_end(s, at, 4)
    } else if id == TAG_LONG_ARRAY {
        array_end(s, at, 8)
    } else {
        None
    }
}

/// Where `count` values of type `id`, one after the other from `at`, end.
/// (A value always ends behind its start, see `lemma_payload_end_bounds`;
/// asking for it here is what lets the definition come to an end.)
pub open spec fn items_end(s: Seq<u8>, id: u8, at: int, count: nat, depth: nat) -> Option<int>
    decreases s.len() - at, 3int,
{
    if at < 0 || at > s.len() {
        None
    } else if count == 0 {
        Some(at)
    } else {
        match payload_end(s, id, at, depth) {
            Some(next) => if at < next <= s.len() {
                items_end(s, id, next, (count - 1) as nat, depth)
            } else {
                None
            },
            None => None,
        }
    }
}

/// Where the entries of a compound that start at `at` end: each entry is a
/// type byte, a name and a value, and a zero type byte closes the compound.
/// Lists and compounds among the values may open `depth` levels.
pub open spec fn entries_end(s: Seq<u8>, at: int, depth: nat) -> Option<int>
    decreases s.len() - at, 1int,
{
    if at < 0 || at >= s.len() {
        None
    } else if s[at] == TAG_END {
        Some(at + 1)
    } else {
        match text_end(s, at + 1) {
            Some(named) => match payload_end(s, s[at], named, depth) {
                Some(next) => if at < next <= s.len() {
                    entries_end(s, next, depth)
                } else {
                    None
                },
                None => None,
            },
            None => None,
        }
    }
}

/// Where the tree at the front of `s` ends: a compound's type byte, the
/// root's name, then the root's entries. Bytes behind it are not looked
/// at. The root is the first of the `MAX_DEPTH` levels.
pub open spec fn document_end(s: Seq<u8>) -> Option<int> {
    if s.len() >= 1 && s[0] == TAG_COMPOUND {
        match text_end(s, 1) {
            Some(named) => entries_end(s, named, (MAX_DEPTH - 1) as nat),
            None => None,
        }
    } else {
        None
    }
}

/// Whether a framed tree stands at the front of `s`.
pub open spec fn is_framed(s: Seq<u8>) -> bool {
    document_end(s) is Some
}

/// The end of a value lies behind its start and inside the data.
pub proof fn lemma_payload_end_bounds(s: Seq<u8>, id: u8, at: int, depth: nat)
    ensures
        payload_end(s, id, at, depth) matches Some(end) ==> at < end <= s.len(),
    decreases s.len() - at, 2int,
{
    if 0 <= at <= s.len() && depth > 0 {
        if id == TAG_LIST {
            if let Some(count) = count_at(s, at + 1) {
                lemma_items_end_bounds(s, s[at], at + 5, count as nat, (depth - 1) as nat);
            }
        } else if id == TAG_COMPOUND {
            lemma_entries_end_bounds(s, at, (depth - 1) as nat);
        }
    }
}

/// The end of a run of values lies at or behind its start, inside the data.
pub proof fn lemma_items_end_bounds(s: Seq<u8>, id: u8, at: int, count: nat, depth: nat)
    ensures
        items_end(s, id, at, count, depth) matches Some(end) ==> at <= end <= s.len(),
    decreases s.len() - at, 3int,
{
    if 0 <= at <= s.len() && count > 0 {
        if let Some(next) = payload_end(s, id, at, depth) {
            if at < next <= s.len() {
                lemma_items_end_bounds(s, id, next, (count - 1) as nat, depth);
            }
        }
    }
}

/// The end of a compound's entries lies behind their start, inside the data.
pub proof fn lemma_entries_end_bounds(s: Seq<u8>, at: int, depth: nat)
    ensures
        entries_end(s, at, depth) matches Some(end) ==> at < end <= s.len(),
    decreases s.len() - at, 1int,
{
    if 0 <= at < s.len() && s[at] != TAG_END {
        if let Some(named) = text_end(s, at + 1) {
            if let Some(next) = payload_end(s, s[at], named, depth) {
                if at < next <= s.len() {
                    lemma_entries_end_bounds(s, next, depth);
                }
            }
        }
    }
}

/// Whether `s` and `t` hold the same bytes before `end`.
pub open spec fn agree_before(s: Seq<u8>, t: Seq<u8>, end: int) -> bool {
    &&& end <= s.len()
    &&& end <= t.len()
    &&& forall|i: int| 0 <= i < end ==> s[i] == t[i]
}

/// The end of a value depends on the bytes before that end alone.
pub proof fn lemma_payload_end_local(s: Seq<u8>, t: Seq<u8>, id: u8, at: int, depth: nat)
    requires
        payload_end(s, id, at, depth) matches Some(end) && agree_before(s, t, end),
    ensures
        payload_end(t, id, at, depth) == payload_end(s, id, at, depth),
    decreases s.len() - at, 2int,
{
    if id == TAG_LIST {
        let count = count_at(s, at + 1)->0 as nat;
        lemma_items_end_bounds(s, s[at], at + 5, count, (depth - 1) as nat);
        lemma_items_end_local(s, t, s[at], at + 5, count, (depth - 1) as nat);
    } else if id == TAG_COMPOUND {
        lemma_entries_end_local(s, t, at, (depth - 1) as nat);
    }
}

/// The end of a run of values depends on the bytes before that end alone.
pub proof fn lemma_items_end_local(
    s: Seq<u8>,
    t: Seq<u8>,
    id: u8,
    at: int,
    count: nat,
    depth: nat,
)
    requires
        items_end(s, id, at, count, depth) matches Some(end) && agree_before(s, t, end),
    ensures
        items_end(t, id, at, count, depth) == items_end(s, id, at, count, depth),
    decreases s.len() - at, 3int,
{
    if count > 0 {
        let next = payload_end(s, id, at, depth)->0;
        lemma_items_end_bounds(s, id, next, (count - 1) as nat, depth);
        lemma_payload_end_local(s, t, id, at, depth);
        lemma_items_end_local(s, t, id, next, (count - 1) as nat, depth);
    }
}

/// The end of a compound's entries depends on the bytes before that end
/// alone.
pub proof fn lemma_entries_end_local(s: Seq<u8>, t: Seq<u8>, at: int, depth: nat)
    requires
        entries_end(s, at, depth) matches Some(end) && agree_before(s, t, end),
    ensures
        entries_end(t, at, depth) == entries_end(s, at, depth),
    decreases s.len() - at, 1int,
{
    if s[at] != TAG_END {
        let named = text_end(s, at + 1)->0;
        let next = payload_end(s, s[at], named, depth)->0;
        lemma_payload_end_bounds(s, s[at], named, depth);
        lemma_entries_end_bounds(s, next, depth);
        lemma_payload_end_local(s, t, s[at], named, depth);
        lemma_entries_end_local(s, t, next, depth);
    }
}

/// Finds where `width` bytes that start at `at` end.
fn fixed_limit(data: &[u8], at: usize, width: u64) -> (r: Option<usize>)
    requires
        at <= data@.len(),
    ensures
        r matches Some(end) ==> fixed_end(data@, at as int, width as int) == Some(end as int),
        r is None ==> fixed_end(data@, at as int, width as int) is None,
{
    let room: usize = data.len() - at;
    if width <= room as u64 {
        Some(at + width as usize)
    } else {
        None
    }
}

/// Finds where a name or a string that starts at `at` ends.
fn text_limit(data: &[u8], at: usize) -> (r: Option<usize>)
    requires
        at <= data@.len(),
    ensures
        r matches Some(end) ==> text_end(data@, at as int) == Some(end as int),
        r is None ==> text_end(data@, at as int) is None,
{
    if data.len() - at < 2 {
        None
    } else {
        let length: u16 = read_be16(data, at);
        fixed_limit(data, at + 2, length as u64)
    }
}

/// Reads the count that the four bytes at `at` declare.
fn count_limit(data: &[u8], at: usize) -> (r: Option<u32>)
    requires
        at <= data@.len(),
    ensures
        r matches Some(count) ==> count_at(data@, at as int) == Some(count as int),
        r is None ==> count_at(data@, at as int) is None,
        r is Some ==> at + 4 <= data.len(),
{
    if data.len() - at < 4 {
        None
    } else {
        let count: u32 = read_be32(data, at);
        if count < 0x8000_0000 {
            Some(count)
        } else {
            None
        }
    }
}

/// Finds where an array that starts at `at` ends.
fn array_limit(data: &[u8], at: usize, width: u64) -> (r: Option<usize>)
    requires
        at <= data@.len(),
        width <= 8,
    ensures
        r matches Some(end) ==> array_end(data@, at as int, width as int) == Some(end as int),
        r is None ==> array_end(data@, at as int, width as int) is None,
{
    match count_limit(data, at) {
        Some(count) => {
            assert(count as int * width as int <= 0x8000_0000 * 8) by (nonlinear_arith)
                requires
                    count < 0x8000_0000,
                    width <= 8,
            ;
            fixed_limit(data, at + 4, count as u64 * width)
        },
        None => None,
    }
}

/// Finds where the value of type `id` that starts at `at` ends, with lists
/// and compounds followed for `depth` levels.
pub fn payload_limit(data: &[u8], id: u8, at: usize, depth: u32) -> (r: Option<usize>)
    ensures
        r matches Some(end) ==> payload_end(data@, id, at as int, depth as nat) == Some(
            end as int,
        ),
        r is None ==> payload_end(data@, id, at as int, depth as nat) is None,
    decreases data@.len() - at, 2int,
{
    if at > data.len() {
        None
    } else if id == 1 {
        fixed_limit(data, at, 1)
    } else if id == 2 {
        fixed_limit(data, at, 2)
    } else if id == 3 || id == 5 {
        fixed_limit(data, at, 4)
    } else if id == 4 || id == 6 {
        fixed_limit(data, at, 8)
    } else if id == TAG_BYTE_ARRAY {
        array_limit(data, at, 1)
    } else if id == TAG_STRING {
        text_limit(data, at)
    } else if id == TAG_LIST {
        if data.len() - at < 5 || depth == 0 {
            None
        } else {
            match count_limit(data, at + 1) {
                Some(count) => items_limit(data, data[at], at + 5, count, depth - 1),
                None => None,
            }
        }
    } else if id == TAG_COMPOUND {
        if depth == 0 {
            None
        } else {
            entries_limit(data, at, depth - 1)
        }
    } else if id == TAG_INT_ARRAY {
        array_limit(data, at, 4)
    } else if id == TAG_LONG_ARRAY {
        array_limit(data, at, 8)
    } else {
        None
    }
}

/// Finds where `count` values of type `id`, one after the other from `at`,
/// end.
pub fn items_limit(data: &[u8], id: u8, at: usize, count: u32, depth: u32) -> (r: Option<usize>)
    ensures
        r matches Some(end) ==> items_end(data@, id, at as int, count as nat, depth as nat)
            == Some(end as int),
        r is None ==> items_end(data@, id, at as int, count as nat, depth as nat) is None,
    decreases data@.len() - at, 3int,
{
    if at > data.len() {
        return None;
    }
    let mut cursor: usize = at;
    let mut left: u32 = count;
    while left > 0
        invariant
            at <= cursor <= data@.len(),
            items_end(data@, id, at as int, count as nat, depth as nat) == items_end(
                data@,
                id,
                cursor as int,
                left as nat,
                depth as nat,
            ),
        decreases left,
    {
        match payload_limit(data, id, cursor, depth) {
            Some(next) => {
                proof {
                    lemma_payload_end_bounds(data@, id, cursor as int, depth as nat);
                }
                cursor = next;
                left = left - 1;
            },
            None => {
                return None;
            },
        }
    }
    Some(cursor)
}

/// Finds where the entries of a compound that start at `at` end.
pub fn entries_limit(data: &[u8], at: usize, depth: u32) -> (r: Option<usize>)
    ensures
        r matches Some(end) ==> entries_end(data@, at as int, depth as nat) == Some(end as int),
        r is None ==> entries_end(data@, at as int, depth as nat) is None,
    decreases data@.len() - at, 1int,
{
    if at > data.len() {
        return None;
    }
    let mut cursor: usize = at;
    loop
        invariant
            at <= cursor <= data@.len(),
            entries_end(data@, at as int, depth as nat) == entries_end(
                data@,
                cursor as int,
                depth as nat,
            ),
        decreases data@.len() - cursor,
    {
        if cursor >= data.len() {
            return None;
        }
        let id: u8 = data[cursor];
        if id == TAG_END {
            return Some(cursor + 1);
        }
        let named: usize = match text_limit(data, cursor + 1) {
            Some(named) => named,
            None => {
                return None;
            },
        };
        match payload_limit(data, id, named, depth) {
            Some(next) => {
                proof {
                    lemma_payload_end_bounds(data@, id, named as int, depth as nat);
                }
                cursor = next;
            },
            None => {
                return None;
            },
        }
    }
}

/// Finds where the tree at the front of `data` ends, `None` where no framed
/// tree stands there.
pub fn document_limit(data: &[u8]) -> (r: Option<usize>)
    ensures
        r matches Some(end) ==> document_end(data@) == Some(end as int),
        r is None ==> document_end(data@) is None,
{
    if data.len() < 1 || data[0] != TAG_COMPOUND {
        None
    } else {
        match text_limit(data, 1) {
            Some(named) => entries_limit(data, named, MAX_DEPTH - 1),
            None => None,
        }
    }
}

} // verus!
