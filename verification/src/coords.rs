//! The cell a container is named after. A container's name has the shape
//! `<prefix>.<x>.<z>.<ext>`; other files may lie beside containers, and a name
//! of another shape names no cell.
//!
//! A name is read as bytes. In UTF-8 the dot, the signs and the digits are
//! single bytes, and no byte of a longer character equals one of them.

use vstd::prelude::*;
use vstd::slice::slice_subrange;
use vstd::utf8::encode_utf8;

verus! {

/// The byte that separates the segments of a name.
pub const DOT: u8 = 0x2e;

/// The byte `+`.
pub const PLUS: u8 = 0x2b;

/// The byte `-`.
pub const MINUS: u8 = 0x2d;

/// The byte `0`; the other digits follow it.
pub const ZERO: u8 = 0x30;

/// Whether `b` is a decimal digit.
pub open spec fn is_digit(b: u8) -> bool {
    ZERO <= b <= ZERO + 9
}

/// Whether `s` holds decimal digits only.
pub open spec fn all_digits(s: Seq<u8>) -> bool {
    forall|i: int| 0 <= i < s.len() ==> is_digit(#[trigger] s[i])
}

/// The number that a run of decimal digits writes.
pub open spec fn digits_value(s: Seq<u8>) -> int
    decreases s.len(),
{
    if s.len() == 0 {
        0
    } else {
        digits_value(s.drop_last()) * 10 + (s.last() - ZERO)
    }
}

/// Whether `s` starts with a sign.
pub open spec fn has_sign(s: Seq<u8>) -> bool {
    s.len() > 0 && (s[0] == PLUS || s[0] == MINUS)
}

/// The 32-bit number that `s` writes in decimal: an optional sign, then at
/// least one digit and nothing else. `None` where `s` is of another shape or
/// the number does not fit.
pub open spec fn decimal_i32(s: Seq<u8>) -> Option<i32> {
    let digits = if has_sign(s) {
        s.skip(1)
    } else {
        s
    };
    let value = if s.len() > 0 && s[0] == MINUS {
        -digits_value(digits)
    } else {
        digits_value(digits)
    };
    if digits.len() > 0 && all_digits(digits) && i32::MIN <= value <= i32::MAX {
        Some(value as i32)
    } else {
        None
    }
}

/// The index of the first dot in `s`, or `s.len()` where it holds none.
pub open spec fn dot_index(s: Seq<u8>) -> int
    decreases s.len(),
{
    if s.len() == 0 || s[0] == DOT {
        0
    } else {
        1 + dot_index(s.drop_first())
    }
}

/// How many dots `s` holds.
pub open spec fn dot_count(s: Seq<u8>) -> nat
    decreases s.len(),
{
    if s.len() == 0 {
        0
    } else if s[0] == DOT {
        1 + dot_count(s.drop_first())
    } else {
        dot_count(s.drop_first())
    }
}

/// The segments of `s`: what stands between its dots, before the first and
/// behind the last.
pub open spec fn segments(s: Seq<u8>) -> Seq<Seq<u8>>
    decreases s.len(),
{
    let dot = dot_index(s);
    if 0 <= dot < s.len() {
        seq![s.take(dot)] + segments(s.skip(dot + 1))
    } else {
        seq![s]
    }
}

/// Segments put together again, with a dot between each two.
pub open spec fn joined(parts: Seq<Seq<u8>>) -> Seq<u8>
    decreases parts.len(),
{
    if parts.len() == 0 {
        Seq::empty()
    } else if parts.len() == 1 {
        parts[0]
    } else {
        parts[0] + seq![DOT] + joined(parts.drop_first())
    }
}

/// The cell that a name gives: its second and third segment as numbers.
/// `None` where the name has fewer than four segments or one of the two
/// is no number.
pub open spec fn coords_of(name: Seq<u8>) -> Option<(i32, i32)> {
    let parts = segments(name);
    if parts.len() < 4 {
        None
    } else {
        match (decimal_i32(parts[1]), decimal_i32(parts[2])) {
            (Some(x), Some(z)) => Some((x, z)),
            _ => None,
        }
    }
}

/// The first dot stands where no dot stands before it.
pub proof fn lemma_dot_index(s: Seq<u8>, dot: int)
    requires
        0 <= dot <= s.len(),
        forall|i: int| 0 <= i < dot ==> s[i] != DOT,
        dot < s.len() ==> s[dot] == DOT,
    ensures
        dot_index(s) == dot,
    decreases dot,
{
    if dot > 0 {
        lemma_dot_index(s.drop_first(), dot - 1);
    }
}

/// No dot stands before the first dot, and a dot stands there unless the
/// name holds none.
pub proof fn lemma_dot_index_is_first(s: Seq<u8>)
    ensures
        0 <= dot_index(s) <= s.len(),
        forall|i: int| 0 <= i < dot_index(s) ==> s[i] != DOT,
        dot_index(s) < s.len() ==> s[dot_index(s)] == DOT,
    decreases s.len(),
{
    if s.len() > 0 && s[0] != DOT {
        let rest = s.drop_first();
        lemma_dot_index_is_first(rest);
        assert forall|i: int| 0 <= i < dot_index(s) implies s[i] != DOT by {
            if i > 0 {
                assert(s[i] == rest[i - 1]);
            }
        }
    }
}

/// A name with a dot at `dot` and none before it has the segment in front
/// of that dot, then the segments of what follows it.
pub proof fn lemma_segments_split(s: Seq<u8>, dot: int)
    requires
        0 <= dot < s.len(),
        forall|i: int| 0 <= i < dot ==> s[i] != DOT,
        s[dot] == DOT,
    ensures
        segments(s) == seq![s.take(dot)] + segments(s.skip(dot + 1)),
{
    lemma_dot_index(s, dot);
}

/// A name without a dot is one segment.
pub proof fn lemma_segments_single(s: Seq<u8>)
    requires
        forall|i: int| 0 <= i < s.len() ==> s[i] != DOT,
    ensures
        segments(s) == seq![s],
{
    lemma_dot_index(s, s.len() as int);
}

/// Appending a digit to a run of digits.
proof fn lemma_digits_push(s: Seq<u8>, end: int)
    requires
        0 <= end < s.len(),
    ensures
        digits_value(s.take(end + 1)) == digits_value(s.take(end)) * 10 + (s[end] - ZERO),
{
    assert(s.take(end + 1).drop_last() == s.take(end));
}

/// Finds the first dot in `name` at or behind `from`; gives the length of
/// `name` where there is none.
fn find_dot(name: &[u8], from: usize) -> (dot: usize)
    requires
        from <= name@.len(),
    ensures
        from <= dot <= name@.len(),
        forall|i: int| from <= i < dot ==> name@[i] != DOT,
        dot < name@.len() ==> name@[dot as int] == DOT,
{
    let mut at: usize = from;
    while at < name.len() && name[at] != DOT
        invariant
            from <= at <= name@.len(),
            forall|i: int| from <= i < at ==> name@[i] != DOT,
        decreases name@.len() - at,
    {
        at = at + 1;
    }
    at
}

/// The largest magnitude that is told apart from larger ones while digits
/// are read: one more than the magnitude of the least 32-bit number.
const MAGNITUDE_CAP: i64 = 0x8000_0001;

/// Reads `text` as a 32-bit number in decimal.
pub fn decimal(text: &[u8]) -> (r: Option<i32>)
    ensures
        r == decimal_i32(text@),
{
    let n: usize = text.len();
    let negative: bool = n > 0 && text[0] == MINUS;
    let start: usize = if n > 0 && (text[0] == PLUS || text[0] == MINUS) {
        1
    } else {
        0
    };
    let ghost digits: Seq<u8> = text@.skip(start as int);
    if start == n {
        return None;
    }
    let mut magnitude: i64 = 0;
    let mut at: usize = start;
    while at < n
        invariant
            start <= at <= n,
            n == text@.len(),
            digits == text@.skip(start as int),
            digits == if has_sign(text@) {
                text@.skip(1)
            } else {
                text@
            },
            all_digits(digits.take(at - start)),
            0 <= digits_value(digits.take(at - start)),
            magnitude == if digits_value(digits.take(at - start)) < MAGNITUDE_CAP {
                digits_value(digits.take(at - start))
            } else {
                MAGNITUDE_CAP as int
            },
        decreases n - at,
    {
        let byte: u8 = text[at];
        if byte < ZERO || byte > ZERO + 9 {
            return None;
        }
        proof {
            lemma_digits_push(digits, at - start);
            assert(all_digits(digits.take(at + 1 - start)));
        }
        let next: i64 = magnitude * 10 + (byte - ZERO) as i64;
        magnitude = if next < MAGNITUDE_CAP {
            next
        } else {
            MAGNITUDE_CAP
        };
        at = at + 1;
    }
    assert(digits.take(n - start) == digits);
    let value: i64 = if negative {
        -magnitude
    } else {
        magnitude
    };
    if value < i32::MIN as i64 || value > i32::MAX as i64 {
        None
    } else {
        Some(value as i32)
    }
}

/// Reads the cell out of a container's name, given as bytes.
pub fn coords(name: &[u8]) -> (r: Option<(i32, i32)>)
    ensures
        r == coords_of(name@),
{
    let n: usize = name.len();
    let first: usize = find_dot(name, 0);
    if first >= n {
        proof {
            lemma_segments_single(name@);
        }
        return None;
    }
    let ghost tail1 = name@.skip(first + 1);
    let second: usize = find_dot(name, first + 1);
    proof {
        lemma_segments_split(name@, first as int);
    }
    if second >= n {
        proof {
            lemma_segments_single(tail1);
        }
        return None;
    }
    let ghost tail2 = tail1.skip(second - first);
    let third: usize = find_dot(name, second + 1);
    proof {
        lemma_segments_split(tail1, second - first - 1);
    }
    if third >= n {
        proof {
            lemma_segments_single(tail2);
        }
        return None;
    }
    proof {
        lemma_segments_split(tail2, third - second - 1);
        assert(tail1.take(second - first - 1) == name@.subrange(first + 1, second as int));
        assert(tail2.take(third - second - 1) == name@.subrange(second + 1, third as int));
    }
    let x = decimal(slice_subrange(name, first + 1, second));
    let z = decimal(slice_subrange(name, second + 1, third));
    match (x, z) {
        (Some(x), Some(z)) => Some((x, z)),
        _ => None,
    }
}

/// Reads the cell out of a container's name.
pub fn region_coords(name: &str) -> (r: Option<(i32, i32)>)
    ensures
        r == coords_of(encode_utf8(name@)),
{
    coords(name.as_bytes())
}

} // verus!
