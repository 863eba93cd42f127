//! What holds of the record reader and the retention rule for every cell,
//! container and tree.

use crate::bytes::be24_at;
use crate::chunk::{Chunk, Stage, Step};
use crate::coords::{
    decimal_i32, dot_count, dot_index, joined, lemma_dot_index_is_first, segments, DOT,
};
use crate::frame::{
    agree_before, document_end, is_framed, lemma_entries_end_bounds, lemma_entries_end_local,
    text_end, MAX_DEPTH,
};
use crate::inflate::zlib_inflated;
use crate::layout::{declared_length_of, entry_is_vacant, entry_offset_of, record_offset_of};
use crate::tree::{decoded_time, level_name, level_time, tree_root, Node};
use crate::verdict::{Failure, Notice, Verdict};
use crate::world::chunk_of;
use vstd::prelude::*;
use vstd::utf8::encode_utf8;

verus! {

/// For a cell inside the grid the directory entry is read at
/// `4 * (x + 32 * z)`, and a populated entry sends the reader to the sector
/// that its first three bytes count, big-endian: byte
/// `(e0 * 65536 + e1 * 256 + e2) * 4096`, where it reads the five bytes of
/// the header.
pub proof fn law_record_is_located(chunk: Chunk, entry: Seq<u8>)
    requires
        0 <= chunk.x < 32,
        0 <= chunk.z < 32,
        entry.len() == 4,
        !entry_is_vacant(entry),
    ensures
        chunk.first_step() == (Step::Read {
            stage: Stage::Entry,
            offset: (4 * (chunk.x + 32 * chunk.z)) as u64,
            length: 4,
        }),
        chunk.next_step(Stage::Entry, Some(entry)) == (Step::Read {
            stage: Stage::Header { sector: be24_at(entry, 0) as u32 },
            offset: ((entry[0] * 65536 + entry[1] * 256 + entry[2]) * 4096) as u64,
            length: 5,
        }),
{
}

/// A header that declares a length of at least 1 sends the reader to the
/// byte behind it, for one byte less than it declares: the declared length
/// counts the method byte.
pub proof fn law_payload_follows_header(chunk: Chunk, sector: u32, header: Seq<u8>)
    requires
        header.len() == 5,
        declared_length_of(header) >= 1,
    ensures
        chunk.next_step(Stage::Header { sector }, Some(header)) == (Step::Read {
            stage: Stage::Payload { length: (declared_length_of(header) - 1) as u32 },
            offset: (sector * 4096 + 5) as u64,
            length: (declared_length_of(header) - 1) as u64,
        }),
{
}

/// The sector count in a directory entry is not consulted: two entries
/// with the same offset bytes lead to the same step.
pub proof fn law_sector_count_is_ignored(chunk: Chunk, first: Seq<u8>, second: Seq<u8>)
    requires
        first.len() == 4,
        second.len() == 4,
        first.subrange(0, 3) == second.subrange(0, 3),
    ensures
        chunk.next_step(Stage::Entry, Some(first)) == chunk.next_step(Stage::Entry, Some(second)),
{
    assert(first[0] == first.subrange(0, 3)[0] && second[0] == second.subrange(0, 3)[0]);
    assert(first[1] == first.subrange(0, 3)[1] && second[1] == second.subrange(0, 3)[1]);
    assert(first[2] == first.subrange(0, 3)[2] && second[2] == second.subrange(0, 3)[2]);
}

/// The method byte in a record header is not branched on: two headers
/// with the same length bytes lead to the same step.
pub proof fn law_method_byte_is_ignored(
    chunk: Chunk,
    sector: u32,
    first: Seq<u8>,
    second: Seq<u8>,
)
    requires
        first.len() == 5,
        second.len() == 5,
        first.subrange(0, 4) == second.subrange(0, 4),
    ensures
        chunk.next_step(Stage::Header { sector }, Some(first)) == chunk.next_step(
            Stage::Header { sector },
            Some(second),
        ),
{
    assert(first[0] == first.subrange(0, 4)[0] && second[0] == second.subrange(0, 4)[0]);
    assert(first[1] == first.subrange(0, 4)[1] && second[1] == second.subrange(0, 4)[1]);
    assert(first[2] == first.subrange(0, 4)[2] && second[2] == second.subrange(0, 4)[2]);
    assert(first[3] == first.subrange(0, 4)[3] && second[3] == second.subrange(0, 4)[3]);
}

/// Every read brings the end nearer: at most three reads are asked of a
/// container, and a finished record asks for none.
pub proof fn law_reads_run_out(
    chunk: Chunk,
    stage: Stage,
    offset: u64,
    length: u64,
    reply: Option<Seq<u8>>,
)
    ensures
        chunk.first_step().reads_left() == 3,
        chunk.next_step(stage, reply).reads_left() < (Step::Read {
            stage,
            offset,
            length,
        }).reads_left(),
{
}

/// For any cell the directory entry lies inside the first 4096 bytes, at
/// the place of the cell taken modulo the grid.
pub proof fn law_entry_is_in_directory(chunk: Chunk)
    ensures
        0 <= entry_offset_of(chunk.x as int, chunk.z as int) <= 4092,
        entry_offset_of(chunk.x as int, chunk.z as int) % 4 == 0,
        entry_offset_of(chunk.x as int, chunk.z as int) == entry_offset_of(
            chunk.x as int % 32,
            chunk.z as int % 32,
        ),
{
}

/// A directory entry of zero bytes ends the reading at once: the cell has
/// no record, nothing is removed and nothing has failed.
pub proof fn law_zero_entry_is_absent(chunk: Chunk, region: Seq<u8>)
    requires
        ({
            let at = entry_offset_of(chunk.x as int, chunk.z as int);
            &&& region.len() >= at + 4
            &&& region.subrange(at, at + 4) == seq![0u8, 0u8, 0u8, 0u8]
        }),
    ensures
        chunk.outcome(region) == Ok::<Verdict, Failure>(Verdict::Absent),
        chunk.next_step(Stage::Entry, Some(seq![0u8, 0u8, 0u8, 0u8])) == Step::Done(
            Ok(Verdict::Absent),
        ),
        !Verdict::Absent.is_removal(),
        chunk.notice_of(chunk.outcome(region)) == Notice::Quiet,
{
}

/// A record whose header declares the length 0 is rejected as an
/// underflow, whatever follows the header.
pub proof fn law_zero_length_underflows(chunk: Chunk, region: Seq<u8>)
    requires
        ({
            let at = entry_offset_of(chunk.x as int, chunk.z as int);
            let start = record_offset_of(region.subrange(at, at + 4));
            &&& region.len() >= at + 4
            &&& !entry_is_vacant(region.subrange(at, at + 4))
            &&& region.len() >= start + 5
            &&& declared_length_of(region.subrange(start, start + 5)) == 0
        }),
    ensures
        chunk.outcome(region) == Err::<Verdict, Failure>(Failure::Underflow),
{
}

/// The header alone decides the underflow: with a declared length of 0 the
/// reader asks for no payload.
pub proof fn law_zero_length_stops_reader(chunk: Chunk, sector: u32, header: Seq<u8>)
    requires
        header.len() == 5,
        declared_length_of(header) == 0,
    ensures
        chunk.next_step(Stage::Header { sector }, Some(header)) == Step::Done(
            Err(Failure::Underflow),
        ),
{
}

/// A tree that records exactly the threshold is kept: the rule asks for a
/// time strictly below it.
pub proof fn law_threshold_is_kept(chunk: Chunk, root: Map<Seq<char>, Node>)
    requires
        level_time(root) matches Some(time) && time == chunk.limit,
    ensures
        chunk.judgement(level_time(root)) == Verdict::Keep,
{
}

/// A tree that records one less than the threshold has its container
/// removed, and the verdict carries the recorded time.
pub proof fn law_below_threshold_is_removed(chunk: Chunk, root: Map<Seq<char>, Node>)
    requires
        level_time(root) matches Some(time) && time == chunk.limit - 1,
    ensures
        chunk.judgement(level_time(root)) == Verdict::Delete((chunk.limit - 1) as i64),
{
}

/// A tree without the field `Level`, or whose `Level` is no compound,
/// never has its container removed, whatever the threshold.
pub proof fn law_missing_level_is_kept(chunk: Chunk, root: Map<Seq<char>, Node>)
    requires
        !root.contains_key(level_name()) || !(root[level_name()] is Compound),
    ensures
        level_time(root) is None,
        chunk.judgement(level_time(root)) == Verdict::Keep,
{
}

/// Framing looks at the tree and at nothing behind it: data that holds the
/// same bytes up to the end of a framed tree is framed alike.
pub proof fn law_framing_is_local(data: Seq<u8>, other: Seq<u8>)
    requires
        document_end(data) matches Some(end) && agree_before(data, other, end),
    ensures
        document_end(other) == document_end(data),
        is_framed(other),
{
    let named = text_end(data, 1)->0;
    lemma_entries_end_bounds(data, named, (MAX_DEPTH - 1) as nat);
    lemma_entries_end_local(data, other, named, (MAX_DEPTH - 1) as nat);
}

/// What the retention rule says of a tree is what it says of the bytes the
/// tree was decoded from.
pub proof fn law_bytes_follow_tree(chunk: Chunk, data: Seq<u8>, root: Map<Seq<char>, Node>)
    requires
        is_framed(data),
        tree_root(data) == Some(root),
    ensures
        chunk.time_outcome(data) == Ok::<Verdict, Failure>(chunk.judgement(level_time(root))),
{
}

/// A payload that does not inflate fails softly: the record is reported as
/// failed and the container is not removed.
pub proof fn law_corrupt_payload_fails_softly(chunk: Chunk, payload: Seq<u8>)
    requires
        zlib_inflated(payload) is None,
    ensures
        chunk.payload_outcome(payload) == Err::<Verdict, Failure>(Failure::Inflate),
        !Failure::Inflate.is_fatal(),
        chunk.notice_of(chunk.payload_outcome(payload)) == (Notice::Failed {
            x: chunk.x,
            z: chunk.z,
            failure: Failure::Inflate,
        }),
{
}

/// A container is removed only after its payload inflated and decoded, and
/// only for a recorded time below the threshold.
pub proof fn law_removal_needs_decoded_time(chunk: Chunk, payload: Seq<u8>, time: i64)
    requires
        chunk.payload_outcome(payload) == Ok::<Verdict, Failure>(Verdict::Delete(time)),
    ensures
        zlib_inflated(payload) matches Some(data) && decoded_time(data) == Ok::<
            Option<i64>,
            Failure,
        >(Some(time)),
        time < chunk.limit,
{
}

/// The container as a whole is removed only for a record that stands
/// where the directory says, declares a length of at least 1, and holds a
/// payload that came out as a removal.
pub proof fn law_removal_follows_record(chunk: Chunk, region: Seq<u8>, time: i64)
    requires
        chunk.outcome(region) == Ok::<Verdict, Failure>(Verdict::Delete(time)),
    ensures
        time < chunk.limit,
        ({
            let at = entry_offset_of(chunk.x as int, chunk.z as int);
            let start = record_offset_of(region.subrange(at, at + 4));
            let declared = declared_length_of(region.subrange(start, start + 5));
            &&& !entry_is_vacant(region.subrange(at, at + 4))
            &&& declared >= 1
            &&& start + 5 + (declared - 1) <= region.len()
            &&& chunk.payload_outcome(region.subrange(start + 5, start + 5 + (declared - 1)))
                == Ok::<Verdict, Failure>(Verdict::Delete(time))
        }),
{
}

/// The dots of a name are its first dot and those behind it.
proof fn lemma_dots_behind_first(name: Seq<u8>)
    ensures
        dot_index(name) < name.len() ==> dot_count(name) == 1 + dot_count(
            name.skip(dot_index(name) + 1),
        ),
        dot_index(name) >= name.len() ==> dot_count(name) == 0,
    decreases name.len(),
{
    if name.len() > 0 {
        let rest = name.drop_first();
        if name[0] == DOT {
            assert(name.skip(1) == rest);
        } else {
            lemma_dots_behind_first(rest);
            lemma_dot_index_is_first(rest);
            if dot_index(rest) < rest.len() {
                assert(rest.skip(dot_index(rest) + 1) == name.skip(dot_index(name) + 1));
            }
        }
    }
}

/// A name has one more segment than it has dots: fewer than four segments
/// are fewer than three dots.
pub proof fn law_one_more_segment_than_dots(name: Seq<u8>)
    ensures
        segments(name).len() == dot_count(name) + 1,
    decreases name.len(),
{
    lemma_dot_index_is_first(name);
    lemma_dots_behind_first(name);
    if dot_index(name) < name.len() {
        law_one_more_segment_than_dots(name.skip(dot_index(name) + 1));
    }
}

/// Splitting a name loses nothing and leaves no dot behind: the segments
/// hold no dot, and put together with dots they give the name again.
pub proof fn law_segments_rejoin(name: Seq<u8>)
    ensures
        joined(segments(name)) == name,
        forall|k: int, i: int|
            0 <= k < segments(name).len() && 0 <= i < segments(name)[k].len() ==> (
            #[trigger] segments(name)[k][i]) != DOT,
    decreases name.len(),
{
    lemma_dot_index_is_first(name);
    let dot = dot_index(name);
    if dot < name.len() {
        let rest = name.skip(dot + 1);
        let parts = segments(name);
        law_segments_rejoin(rest);
        assert(parts.drop_first() == segments(rest));
    }
}

/// A directory of containers, each path with what its file holds, after the
/// container at `path` was judged for `chunk`: that container is gone where
/// the verdict removes it, and nothing else has changed.
pub open spec fn swept(
    store: Map<Seq<char>, Seq<u8>>,
    path: Seq<char>,
    chunk: Chunk,
) -> Map<Seq<char>, Seq<u8>> {
    if store.contains_key(path) && (chunk.outcome(store[path]) matches Ok(verdict)
        && verdict.is_removal()) {
        store.remove(path)
    } else {
        store
    }
}

/// Two different containers do not touch each other: judging one leaves the
/// other as it was, and judging both leaves the directory the same in
/// either order.
pub proof fn law_containers_are_independent(
    store: Map<Seq<char>, Seq<u8>>,
    first: Seq<char>,
    one: Chunk,
    second: Seq<char>,
    two: Chunk,
)
    requires
        first != second,
    ensures
        swept(store, first, one).contains_key(second) == store.contains_key(second),
        store.contains_key(second) ==> swept(store, first, one)[second] == store[second],
        swept(swept(store, first, one), second, two) == swept(
            swept(store, second, two),
            first,
            one,
        ),
{
    assert(swept(swept(store, first, one), second, two) =~= swept(
        swept(store, second, two),
        first,
        one,
    ));
}

/// A file is inspected exactly when its name has at least four segments
/// and the second and third are numbers; the cell is then the one they
/// write. Nothing else about the name, and no other file, has a say.
pub proof fn law_foreign_names_are_skipped(name: Seq<char>, limit: usize)
    ensures
        ({
            let parts = segments(encode_utf8(name));
            let numbered = parts.len() >= 4 && decimal_i32(parts[1]) is Some && decimal_i32(
                parts[2],
            ) is Some;
            &&& chunk_of(name, limit) is Some <==> numbered
            &&& numbered ==> chunk_of(name, limit) == Some(
                Chunk { x: decimal_i32(parts[1])->0, z: decimal_i32(parts[2])->0, limit },
            )
        }),
{
}

} // verus!
